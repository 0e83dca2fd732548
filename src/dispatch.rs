//! Routing a call to a registered entry point: the dispatch table, the
//! argument bag, and the execution context that owns both.

use crate::codec::Codec;
use crate::error::ApiError;
use crate::schema::CLType;
use vstd::prelude::*;

verus! {

/// Values kept under distinct names.
struct NameMap<V> {
    entries: Vec<(String, V)>,
    model: Ghost<Map<Seq<char>, V>>,
}

impl<V> NameMap<V> {
    spec fn wf(&self) -> bool {
        &&& forall|i: int, j: int|
            0 <= i < j < self.entries@.len() ==> (#[trigger] self.entries@[i]).0@ != (
            #[trigger] self.entries@[j]).0@
        &&& forall|i: int|
            0 <= i < self.entries@.len() ==> {
                &&& self.model@.contains_key((#[trigger] self.entries@[i]).0@)
                &&& self.model@[self.entries@[i].0@] == self.entries@[i].1
            }
        &&& forall|k: Seq<char>|
            #[trigger] self.model@.contains_key(k) ==> exists|i: int|
                0 <= i < self.entries@.len() && (#[trigger] self.entries@[i]).0@ == k
    }

    fn new() -> (r: Self)
        ensures
            r.wf(),
            r.model@ == Map::<Seq<char>, V>::empty(),
    {
        NameMap { entries: Vec::new(), model: Ghost(Map::empty()) }
    }

    fn find(&self, name: &str) -> (r: Option<usize>)
        requires
            self.wf(),
        ensures
            r matches Some(i) ==> i < self.entries@.len() && self.entries@[i as int].0@ == name@,
            r is None ==> !self.model@.contains_key(name@),
    {
        let key = name.to_owned();
        let mut i: usize = 0;
        while i < self.entries.len()
            invariant
                self.wf(),
                key@ == name@,
                0 <= i <= self.entries@.len(),
                forall|j: int| 0 <= j < i ==> (#[trigger] self.entries@[j]).0@ != name@,
            decreases self.entries@.len() - i,
        {
            if self.entries[i].0 == key {
                return Some(i);
            }
            i = i + 1;
        }
        None
    }

    fn get(&self, name: &str) -> (r: Option<&V>)
        requires
            self.wf(),
        ensures
            r matches Some(v) ==> self.model@.contains_key(name@) && self.model@[name@] == *v,
            r is None ==> !self.model@.contains_key(name@),
    {
        match self.find(name) {
            Some(i) => Some(&self.entries[i].1),
            None => None,
        }
    }

    fn put(&mut self, name: &str, value: V)
        requires
            old(self).wf(),
        ensures
            final(self).wf(),
            final(self).model@ == old(self).model@.insert(name@, value),
    {
        let ghost old_entries = self.entries@;
        let ghost new_model = self.model@.insert(name@, value);
        match self.find(name) {
            Some(i) => {
                let key = name.to_owned();
                self.entries.set(i, (key, value));
                self.model = Ghost(new_model);
                assert forall|k: Seq<char>| #[trigger] self.model@.contains_key(k) implies exists|
                    j: int,
                | 0 <= j < self.entries@.len() && (#[trigger] self.entries@[j]).0@ == k by {
                    if k != name@ {
                        let j = choose|j: int|
                            0 <= j < old_entries.len() && (#[trigger] old_entries[j]).0@ == k;
                        assert(self.entries@[j] == old_entries[j]);
                    } else {
                        assert(self.entries@[i as int].0@ == k);
                    }
                }
            },
            None => {
                let key = name.to_owned();
                self.entries.push((key, value));
                self.model = Ghost(new_model);
                assert forall|a: int, b: int| 0 <= a < b < self.entries@.len() implies (
                #[trigger] self.entries@[a]).0@ != (#[trigger] self.entries@[b]).0@ by {
                    if b < old_entries.len() {
                        assert(self.entries@[a] == old_entries[a]);
                        assert(self.entries@[b] == old_entries[b]);
                    } else {
                        assert(self.entries@[a] == old_entries[a]);
                        assert(old_entries[a].0@ != name@);
                    }
                }
                assert forall|j: int| 0 <= j < self.entries@.len() implies {
                    &&& self.model@.contains_key((#[trigger] self.entries@[j]).0@)
                    &&& self.model@[self.entries@[j].0@] == self.entries@[j].1
                } by {
                    if j < old_entries.len() {
                        assert(self.entries@[j] == old_entries[j]);
                        assert(old_entries[j].0@ != name@);
                    }
                }
                assert forall|k: Seq<char>| #[trigger] self.model@.contains_key(k) implies exists|
                    j: int,
                | 0 <= j < self.entries@.len() && (#[trigger] self.entries@[j]).0@ == k by {
                    if k != name@ {
                        let j = choose|j: int|
                            0 <= j < old_entries.len() && (#[trigger] old_entries[j]).0@ == k;
                        assert(self.entries@[j] == old_entries[j]);
                    } else {
                        assert(self.entries@[old_entries.len() as int].0@ == k);
                    }
                }
            },
        }
    }
}

/// The named, encoded arguments of one dispatched call.
pub struct ArgBag {
    args: NameMap<Vec<u8>>,
}

impl View for ArgBag {
    type V = Map<Seq<char>, Seq<u8>>;

    closed spec fn view(&self) -> Map<Seq<char>, Seq<u8>> {
        self.args.model@.map_values(|v: Vec<u8>| v@)
    }
}

impl ArgBag {
    pub closed spec fn wf(&self) -> bool {
        self.args.wf()
    }

    /// A bag with no arguments.
    pub fn new() -> (r: ArgBag)
        ensures
            r.wf(),
            r@ == Map::<Seq<char>, Seq<u8>>::empty(),
    {
        let r = ArgBag { args: NameMap::new() };
        assert(r@ =~= Map::<Seq<char>, Seq<u8>>::empty());
        r
    }

    /// Puts the encoded `bytes` under `name`, replacing what was there.
    pub fn insert(&mut self, name: &str, bytes: Vec<u8>)
        requires
            old(self).wf(),
        ensures
            final(self).wf(),
            final(self)@ == old(self)@.insert(name@, bytes@),
    {
        self.args.put(name, bytes);
        assert(self@ =~= old(self)@.insert(name@, bytes@));
    }

    /// The encoded bytes under `name`, if any.
    pub fn get(&self, name: &str) -> (r: Option<&Vec<u8>>)
        requires
            self.wf(),
        ensures
            r matches Some(v) ==> self@.contains_key(name@) && self@[name@] == v@,
            r is None ==> !self@.contains_key(name@),
    {
        self.args.get(name)
    }
}

/// What `get_named_arg` returns for `name` from a bag viewed as `bag`:
/// a missing name, the decoded value, or a decoding failure.
pub open spec fn spec_named_arg<T: Codec>(bag: Map<Seq<char>, Seq<u8>>, name: Seq<char>) -> Result<
    T::V,
    ApiError,
> {
    if !bag.contains_key(name) {
        Err(ApiError::MissingArgument)
    } else {
        match T::decoding(bag[name]) {
            Some(v) => Ok(v),
            None => Err(ApiError::Decode),
        }
    }
}

/// Reads the argument `name` of the current call and decodes it.
pub fn get_named_arg<T: Codec>(args: &ArgBag, name: &str) -> (r: Result<T, ApiError>)
    requires
        args.wf(),
    ensures
        r matches Ok(v) ==> spec_named_arg::<T>(args@, name@) == Ok::<T::V, ApiError>(v@),
        r matches Err(e) ==> spec_named_arg::<T>(args@, name@) == Err::<T::V, ApiError>(e),
{
    match args.get(name) {
        Some(bytes) => match T::decode(bytes.as_slice()) {
            Some(v) => Ok(v),
            None => Err(ApiError::Decode),
        },
        None => Err(ApiError::MissingArgument),
    }
}

/// An entry point as a contract declares it: its name, its typed
/// parameters, and the handle that runs it.
#[derive(Debug)]
pub struct EntryPoint<'a, F> {
    pub name: &'a str,
    pub params: &'a [(&'a str, CLType)],
    pub func: F,
}

/// One isolated run: its dispatch table, from entry-point name to handle,
/// and the argument bag of the call in progress.
pub struct ExecutionContext<H> {
    table: NameMap<H>,
    args: ArgBag,
}

impl<H> ExecutionContext<H> {
    pub closed spec fn wf(&self) -> bool {
        self.table.wf() && self.args.wf()
    }

    /// The registered handles, by name.
    pub closed spec fn handles(&self) -> Map<Seq<char>, H> {
        self.table.model@
    }

    /// The argument bag of the last dispatched call.
    pub closed spec fn current_args(&self) -> Map<Seq<char>, Seq<u8>> {
        self.args@
    }

    /// A context with no registered handles and an empty argument bag.
    pub fn new() -> (r: Self)
        ensures
            r.wf(),
            r.handles() == Map::<Seq<char>, H>::empty(),
            r.current_args() == Map::<Seq<char>, Seq<u8>>::empty(),
    {
        ExecutionContext { table: NameMap::new(), args: ArgBag::new() }
    }
}

/// Registers `f` under `name`; a later registration under the same name
/// replaces it.
pub fn register_func<H>(ctx: &mut ExecutionContext<H>, name: &str, f: H)
    requires
        old(ctx).wf(),
    ensures
        final(ctx).wf(),
        final(ctx).handles() == old(ctx).handles().insert(name@, f),
        final(ctx).current_args() == old(ctx).current_args(),
{
    ctx.table.put(name, f);
}

/// Registers the handle of `entrypoint` under its name.
pub fn register_entrypoint<'a, H>(ctx: &mut ExecutionContext<H>, entrypoint: EntryPoint<'a, H>)
    requires
        old(ctx).wf(),
    ensures
        final(ctx).wf(),
        final(ctx).handles() == old(ctx).handles().insert(entrypoint.name@, entrypoint.func),
        final(ctx).current_args() == old(ctx).current_args(),
{
    register_func(ctx, entrypoint.name, entrypoint.func);
}

/// What a dispatch of `name` on `args` does, from context `before` to
/// context `after` with result `r`. The table is unchanged and stays well
/// formed. A registered name has its handle called on exactly `args`, which
/// become the context's whole argument bag. An unregistered name is a
/// contract violation that leaves the argument bag as it was.
pub open spec fn dispatched<H: Fn(&ArgBag) -> R, R>(
    before: ExecutionContext<H>,
    name: Seq<char>,
    args: ArgBag,
    after: ExecutionContext<H>,
    r: Result<R, ApiError>,
) -> bool {
    &&& after.wf()
    &&& after.handles() == before.handles()
    &&& if before.handles().contains_key(name) {
        &&& after.current_args() == args@
        &&& r matches Ok(v) && call_ensures(before.handles()[name], (&args,), v)
    } else {
        &&& after.current_args() == before.current_args()
        &&& r matches Err(ApiError::ContractViolation)
    }
}

/// Dispatched calls do not share arguments: when `a` runs on `args_a` and
/// then `b` on `args_b`, each handle is called on exactly its own bag, and
/// after the second call the context holds `args_b` and nothing of
/// `args_a`. An argument that holds the encoding of a value decodes, inside
/// the first call, to that value.
pub proof fn lemma_dispatch_isolation<H: Fn(&ArgBag) -> R, R, T: Codec>(
    c0: ExecutionContext<H>,
    a: Seq<char>,
    args_a: ArgBag,
    c1: ExecutionContext<H>,
    ra: Result<R, ApiError>,
    b: Seq<char>,
    args_b: ArgBag,
    c2: ExecutionContext<H>,
    rb: Result<R, ApiError>,
    x: Seq<char>,
    v: T::V,
)
    requires
        dispatched(c0, a, args_a, c1, ra),
        dispatched(c1, b, args_b, c2, rb),
        c0.handles().contains_key(a),
        c0.handles().contains_key(b),
        args_a@.contains_key(x),
        T::encoding(v) == Some(args_a@[x]),
    ensures
        ra matches Ok(out) && call_ensures(c0.handles()[a], (&args_a,), out),
        rb matches Ok(out) && call_ensures(c0.handles()[b], (&args_b,), out),
        c2.current_args() == args_b@,
        spec_named_arg::<T>(args_a@, x) == Ok::<T::V, ApiError>(v),
{
    T::lemma_decode_encode(v);
}

/// A dispatch of a name that was never registered runs nothing and
/// signals a contract violation; the context keeps its table and its
/// argument bag.
pub proof fn lemma_unregistered_dispatch<H: Fn(&ArgBag) -> R, R>(
    c0: ExecutionContext<H>,
    name: Seq<char>,
    args: ArgBag,
    c1: ExecutionContext<H>,
    r: Result<R, ApiError>,
)
    requires
        dispatched(c0, name, args, c1, r),
        !c0.handles().contains_key(name),
    ensures
        r matches Err(ApiError::ContractViolation),
        c1.handles() == c0.handles(),
        c1.current_args() == c0.current_args(),
{
}

/// Runs the handle registered under `name` on `args`.
///
/// The context's argument bag is replaced whole by `args` before the handle
/// runs, and the handle is called on exactly that bag. A name that was never
/// registered is a contract violation: nothing runs and the context is left
/// as it was.
pub fn dispatch<H: Fn(&ArgBag) -> R, R>(ctx: &mut ExecutionContext<H>, name: &str, args: ArgBag) -> (r: Result<R, ApiError>)
    requires
        old(ctx).wf(),
        args.wf(),
        old(ctx).handles().contains_key(name@) ==> call_requires(
            old(ctx).handles()[name@],
            (&args,),
        ),
    ensures
        dispatched(*old(ctx), name@, args, *final(ctx), r),
{
    match ctx.table.find(name) {
        None => Err(ApiError::ContractViolation),
        Some(i) => {
            ctx.args = args;
            let handle = &ctx.table.entries[i].1;
            Ok(handle(&ctx.args))
        },
    }
}

} // verus!
