use vstd::prelude::*;

use crate::kvs::{Kvs, KvsError};

verus! {

/// A request to the runner: one of the three storage operations with its
/// arguments. The single-use reply channel that accompanies a command in
/// flight belongs to the transport, not to the command's meaning.
pub enum Command {
    Get(String),
    Insert(String, Vec<u8>),
    Remove(String),
}

/// What servicing one command does: the store afterwards and the reply, as
/// the storage capability's contract pins them down for the command's
/// operation and arguments.
pub open spec fn dispatch_post<T: Kvs>(
    pre: T,
    post: T,
    cmd: Command,
    r: Result<Option<Vec<u8>>, KvsError>,
) -> bool {
    match cmd {
        Command::Get(k) => {
            &&& post == pre
            &&& (r matches Ok(Some(v)) ==> pre.contents().contains_key(k@)
                && T::presented_form(k@, pre.contents()[k@]) == Some(v@))
            &&& (r matches Ok(None) ==> !pre.contents().contains_key(k@))
            &&& (pre.reliable() && (pre.contents().contains_key(k@)
                ==> T::presented_form(k@, pre.contents()[k@]) is Some) ==> r is Ok)
        },
        Command::Insert(k, v) => {
            &&& (r is Ok ==> (T::stored_form(k@, v@) matches Some(s)
                && post.contents() == pre.contents().insert(k@, s)))
            &&& (r matches Ok(Some(p)) ==> pre.contents().contains_key(k@)
                && p@ == pre.contents()[k@])
            &&& (r matches Ok(None) ==> !pre.contents().contains_key(k@))
            &&& (r is Err ==> post.contents() == pre.contents())
            &&& (pre.reliable() && T::admits(k@, v@) ==> r is Ok)
            &&& post.reliable() == pre.reliable()
        },
        Command::Remove(k) => {
            &&& (r is Ok ==> post.contents() == pre.contents().remove(k@))
            &&& (r matches Ok(Some(p)) ==> pre.contents().contains_key(k@)
                && p@ == pre.contents()[k@])
            &&& (r matches Ok(None) ==> !pre.contents().contains_key(k@))
            &&& (r is Err ==> post.contents() == pre.contents())
            &&& (pre.reliable() ==> r is Ok)
            &&& post.reliable() == pre.reliable()
        },
    }
}

/// Executes one command against the exclusively owned store: the runner's
/// dispatch step.
pub fn dispatch<T: Kvs>(kvs: &mut T, cmd: Command) -> (r: Result<Option<Vec<u8>>, KvsError>)
    ensures
        dispatch_post::<T>(*old(kvs), *final(kvs), cmd, r),
{
    match cmd {
        Command::Get(k) => kvs.get(k.as_str()),
        Command::Insert(k, v) => kvs.insert(k.as_str(), v),
        Command::Remove(k) => kvs.remove(k.as_str()),
    }
}

/// The contents after servicing a queue of commands in arrival order, when
/// every operation takes effect.
pub open spec fn apply_commands<T: Kvs>(
    m: Map<Seq<char>, Seq<u8>>,
    cmds: Seq<Command>,
) -> Map<Seq<char>, Seq<u8>>
    decreases cmds.len(),
{
    if cmds.len() == 0 {
        m
    } else {
        let head = apply_commands::<T>(m, cmds.drop_last());
        match cmds.last() {
            Command::Get(k) => head,
            Command::Insert(k, v) => match T::stored_form(k@, v@) {
                Some(s) => head.insert(k@, s),
                None => head,
            },
            Command::Remove(k) => head.remove(k@),
        }
    }
}

/// The reply owed for one command serviced against contents `m`, on a
/// reliable store and an admitted command: the operation succeeds (a read
/// whenever the bytes at its key are presentable) and the reply is pinned by
/// `m` — the presented value or absence for a get, the previous entry or
/// absence for an insert or remove.
pub open spec fn reply_post<T: Kvs>(
    m: Map<Seq<char>, Seq<u8>>,
    cmd: Command,
    r: Result<Option<Vec<u8>>, KvsError>,
) -> bool {
    match cmd {
        Command::Get(k) => {
            &&& (r matches Ok(Some(v)) ==> m.contains_key(k@)
                && T::presented_form(k@, m[k@]) == Some(v@))
            &&& (r matches Ok(None) ==> !m.contains_key(k@))
            &&& ((m.contains_key(k@) ==> T::presented_form(k@, m[k@]) is Some) ==> r is Ok)
        },
        Command::Insert(k, v) => {
            &&& r is Ok
            &&& (r matches Ok(Some(p)) ==> m.contains_key(k@) && p@ == m[k@])
            &&& (r matches Ok(None) ==> !m.contains_key(k@))
        },
        Command::Remove(k) => {
            &&& r is Ok
            &&& (r matches Ok(Some(p)) ==> m.contains_key(k@) && p@ == m[k@])
            &&& (r matches Ok(None) ==> !m.contains_key(k@))
        },
    }
}

/// Every insert in the queue is one the store admits.
pub open spec fn all_admitted<T: Kvs>(cmds: Seq<Command>) -> bool {
    forall|i: int| 0 <= i < cmds.len() ==> match #[trigger] cmds[i] {
        Command::Insert(k, v) => T::admits(k@, v@),
        Command::Get(_) => true,
        Command::Remove(_) => true,
    }
}

/// Services a queue of commands strictly in arrival order against the
/// exclusively owned store, returning one reply per command — none dropped,
/// none reordered, none coalesced. Delivering each reply is the transport's
/// business; servicing does not depend on anyone waiting for it.
pub fn run_commands<T: Kvs>(kvs: &mut T, cmds: Vec<Command>) -> (replies: Vec<
    Result<Option<Vec<u8>>, KvsError>,
>)
    ensures
        replies@.len() == cmds@.len(),
        final(kvs).reliable() == old(kvs).reliable(),
        old(kvs).reliable() && all_admitted::<T>(cmds@) ==> {
            &&& final(kvs).contents() == apply_commands::<T>(old(kvs).contents(), cmds@)
            &&& forall|i: int| 0 <= i < cmds@.len() ==> #[trigger] reply_post::<T>(
                apply_commands::<T>(old(kvs).contents(), cmds@.take(i)),
                cmds@[i],
                replies@[i],
            )
        },
{
    let ghost m0 = kvs.contents();
    let ghost rel0 = kvs.reliable();
    let ghost all = cmds@;
    let mut queue = cmds;
    let mut replies: Vec<Result<Option<Vec<u8>>, KvsError>> = Vec::new();
    while queue.len() > 0
        invariant
            replies@.len() + queue@.len() == all.len(),
            queue@ == all.skip(replies@.len() as int),
            kvs.reliable() == rel0,
            rel0 && all_admitted::<T>(all) ==> {
                &&& kvs.contents() == apply_commands::<T>(m0, all.take(replies@.len() as int))
                &&& forall|i: int| 0 <= i < replies@.len() ==> #[trigger] reply_post::<T>(
                    apply_commands::<T>(m0, all.take(i)),
                    all[i],
                    replies@[i],
                )
            },
        decreases queue@.len(),
    {
        let ghost n = replies@.len() as int;
        let cmd = queue.remove(0);
        proof {
            assert(cmd == all[n]);
            assert(queue@ =~= all.skip(n + 1));
            assert(all.take(n + 1).drop_last() =~= all.take(n));
        }
        let r = dispatch(kvs, cmd);
        replies.push(r);
    }
    proof {
        assert(all.take(replies@.len() as int) =~= all);
    }
    replies
}

/// The handle's reply handling: a reply that never arrived (the runner went
/// away before sending) surfaces as a communication failure of the `Other`
/// kind, carrying the transport's message; a delivered reply passes through
/// unchanged.
pub fn settle_reply(reply: Option<Result<Option<Vec<u8>>, KvsError>>, detail: String) -> (r:
    Result<Option<Vec<u8>>, KvsError>)
    ensures
        reply matches Some(inner) ==> r == inner,
        reply is None ==> r == Result::<Option<Vec<u8>>, KvsError>::Err(KvsError::Other(detail)),
{
    match reply {
        Some(inner) => inner,
        None => Err(KvsError::Other(detail)),
    }
}

/// Admission: a queue of inserts on pairwise distinct keys, serviced in
/// arrival order, lands every entry — afterwards each key holds its value's
/// stored form; none is dropped.
pub proof fn lemma_all_inserts_land<T: Kvs>(m: Map<Seq<char>, Seq<u8>>, cmds: Seq<Command>)
    requires
        forall|i: int| 0 <= i < cmds.len() ==> (#[trigger] cmds[i]) is Insert,
        forall|i: int, j: int| 0 <= i < j < cmds.len()
            ==> (#[trigger] cmds[i])->Insert_0@ != (#[trigger] cmds[j])->Insert_0@,
        forall|i: int| 0 <= i < cmds.len()
            ==> T::stored_form((#[trigger] cmds[i])->Insert_0@, cmds[i]->Insert_1@) is Some,
    ensures
        forall|i: int| 0 <= i < cmds.len() ==> {
            let k = (#[trigger] cmds[i])->Insert_0@;
            let v = cmds[i]->Insert_1@;
            apply_commands::<T>(m, cmds).contains_key(k) && apply_commands::<T>(m, cmds)[k]
                == T::stored_form(k, v)->Some_0
        },
    decreases cmds.len(),
{
    if cmds.len() > 0 {
        let prefix = cmds.drop_last();
        lemma_all_inserts_land::<T>(m, prefix);
        assert forall|i: int| 0 <= i < cmds.len() implies {
            let k = (#[trigger] cmds[i])->Insert_0@;
            let v = cmds[i]->Insert_1@;
            apply_commands::<T>(m, cmds).contains_key(k) && apply_commands::<T>(m, cmds)[k]
                == T::stored_form(k, v)->Some_0
        } by {
            if i < cmds.len() - 1 {
                assert(cmds[i] == prefix[i]);
                assert(cmds[i]->Insert_0@ != cmds[cmds.len() - 1]->Insert_0@);
            }
        }
    }
}

/// Ordering: two inserts at the same key, serviced in arrival order, leave
/// exactly the later value's stored form behind; the earlier write is
/// overwritten, never resurrected.
pub proof fn lemma_same_key_order<T: Kvs>(
    m: Map<Seq<char>, Seq<u8>>,
    k1: String,
    v1: Vec<u8>,
    k2: String,
    v2: Vec<u8>,
)
    requires
        k1@ == k2@,
        T::stored_form(k1@, v1@) is Some,
        T::stored_form(k2@, v2@) is Some,
    ensures
        apply_commands::<T>(m, seq![Command::Insert(k1, v1), Command::Insert(k2, v2)])
            == m.insert(k2@, T::stored_form(k2@, v2@)->Some_0),
{
    let cmds = seq![Command::Insert(k1, v1), Command::Insert(k2, v2)];
    let s1 = T::stored_form(k1@, v1@)->Some_0;
    let s2 = T::stored_form(k2@, v2@)->Some_0;
    let prefix = cmds.drop_last();
    assert(prefix.drop_last() =~= Seq::<Command>::empty());
    assert(prefix.last() == Command::Insert(k1, v1));
    assert(apply_commands::<T>(m, prefix.drop_last()) == m);
    assert(apply_commands::<T>(m, prefix) == m.insert(k1@, s1));
    assert(cmds.last() == Command::Insert(k2, v2));
    assert(apply_commands::<T>(m, cmds) == m.insert(k1@, s1).insert(k2@, s2));
    assert(m.insert(k1@, s1).insert(k2@, s2) =~= m.insert(k2@, s2));
}

} // verus!
