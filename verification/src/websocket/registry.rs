//! The registry of open websocket connections, with its two indexes: the
//! connections of each unit and the connections of each user.

use vstd::prelude::*;

use crate::ids::random_uuid;
use crate::keyed::{KeyedMap, MapKey, UserKey};
use crate::websocket::dispatcher::ClientAlertMessage;

verus! {

/// What the registry knows of a connection: its id, its user, its units
/// and the channel that carries messages to its socket task.
pub struct ConnectionView {
    pub connection_id: u128,
    pub user: UserKey,
    pub unit_ids: Seq<u128>,
    pub sender: tokio::sync::mpsc::Sender<ClientAlertMessage>,
}

/// The `j`-th id tried after drawing `first`: the values from `first` on,
/// wrapping past the largest to zero.
pub open spec fn id_candidate(first: u128, j: int) -> u128 {
    if first + j <= u128::MAX {
        (first + j) as u128
    } else {
        (first + j - u128::MAX - 1) as u128
    }
}

/// No more ids can be taken, one after another from `first`, than there are
/// connections.
proof fn lemma_taken_candidates_fit(s: Seq<ConnectionView>, first: u128, m: int)
    requires
        0 <= m <= u128::MAX,
        forall|j: int| 0 <= j < m ==> has_connection(s, #[trigger] id_candidate(first, j)),
    ensures
        m <= s.len(),
{
    broadcast use vstd::seq_lib::group_seq_properties;
    let cands = Seq::new(m as nat, |j: int| id_candidate(first, j));
    let ids = s.map_values(|c: ConnectionView| c.connection_id);
    assert(cands.no_duplicates()) by {
        assert forall|i: int, j: int| 0 <= i < cands.len() && 0 <= j < cands.len() && i != j implies cands[i]
            != cands[j] by {
            assert(cands[i] == id_candidate(first, i));
            assert(cands[j] == id_candidate(first, j));
        }
    }
    cands.unique_seq_to_set();
    ids.lemma_cardinality_of_set();
    assert(cands.to_set().subset_of(ids.to_set())) by {
        assert forall|x: u128| cands.to_set().contains(x) implies ids.to_set().contains(x) by {
            assert(cands.contains(x));
            let j = choose|j: int| 0 <= j < cands.len() && cands[j] == x;
            assert(has_connection(s, id_candidate(first, j)));
            let q = choose|q: int| 0 <= q < s.len() && #[trigger] s[q].connection_id == id_candidate(first, j);
            assert(ids[q] == x);
            assert(ids.contains(x));
        }
    }
    vstd::set_lib::lemma_len_subset(cands.to_set(), ids.to_set());
}

/// The connection `id` is registered in `s` with `sender` as its channel.
pub open spec fn registered_sender(
    s: Seq<ConnectionView>,
    id: u128,
    sender: tokio::sync::mpsc::Sender<ClientAlertMessage>,
) -> bool {
    exists|j: int| 0 <= j < s.len() && #[trigger] s[j].connection_id == id && s[j].sender == sender
}

/// How often `x` occurs in `s`.
pub open spec fn occurrences(s: Seq<u128>, x: u128) -> nat
    decreases s.len(),
{
    if s.len() == 0 {
        0
    } else {
        occurrences(s.drop_last(), x) + if s.last() == x {
            1nat
        } else {
            0nat
        }
    }
}

/// The two indexes of the registry, by what they are keyed.
pub enum IndexKey {
    Unit(u128),
    User(UserKey),
}

/// What a connection adds to an index list: its id once per occurrence of
/// the unit among its units, or once if it belongs to the user.
pub open spec fn share(c: ConnectionView, key: IndexKey) -> Seq<u128> {
    match key {
        IndexKey::Unit(unit) => Seq::new(occurrences(c.unit_ids, unit), |_i: int| c.connection_id),
        IndexKey::User(user) => if c.user == user {
            seq![c.connection_id]
        } else {
            Seq::empty()
        },
    }
}

/// The index list of a key: the shares of the connections, in the order in
/// which they were registered.
pub open spec fn gather(s: Seq<ConnectionView>, key: IndexKey) -> Seq<u128>
    decreases s.len(),
{
    if s.len() == 0 {
        Seq::empty()
    } else {
        gather(s.drop_last(), key) + share(s.last(), key)
    }
}

/// The connections listed for a unit.
pub open spec fn unit_index(s: Seq<ConnectionView>, unit: u128) -> Seq<u128> {
    gather(s, IndexKey::Unit(unit))
}

/// The connections listed for a user.
pub open spec fn user_index(s: Seq<ConnectionView>, user: UserKey) -> Seq<u128> {
    gather(s, IndexKey::User(user))
}

/// `s` without any occurrence of `x`.
pub open spec fn without(s: Seq<u128>, x: u128) -> Seq<u128>
    decreases s.len(),
{
    if s.len() == 0 {
        Seq::empty()
    } else {
        without(s.drop_last(), x) + if s.last() == x {
            Seq::empty()
        } else {
            seq![s.last()]
        }
    }
}

/// The connections of `s` but the one with id `id`.
pub open spec fn drop_connection(s: Seq<ConnectionView>, id: u128) -> Seq<ConnectionView>
    decreases s.len(),
{
    if s.len() == 0 {
        Seq::empty()
    } else {
        drop_connection(s.drop_last(), id) + if s.last().connection_id == id {
            Seq::empty()
        } else {
            seq![s.last()]
        }
    }
}

pub open spec fn ids_distinct(s: Seq<ConnectionView>) -> bool {
    forall|i: int, j: int|
        0 <= i < s.len() && 0 <= j < s.len() && i != j ==> #[trigger] s[i].connection_id
            != #[trigger] s[j].connection_id
}

pub open spec fn has_connection(s: Seq<ConnectionView>, id: u128) -> bool {
    exists|j: int| 0 <= j < s.len() && #[trigger] s[j].connection_id == id
}

/// The list filed under a key, or the empty list.
pub open spec fn listed<K>(m: Map<K, Seq<u128>>, k: K) -> Seq<u128> {
    if m.contains_key(k) {
        m[k]
    } else {
        Seq::empty()
    }
}

pub proof fn lemma_without_append(a: Seq<u128>, b: Seq<u128>, x: u128)
    ensures
        without(a + b, x) == without(a, x) + without(b, x),
    decreases b.len(),
{
    if b.len() == 0 {
        assert(a + b =~= a);
        assert(without(a, x) + without(b, x) =~= without(a, x));
    } else {
        lemma_without_append(a, b.drop_last(), x);
        assert((a + b).drop_last() =~= a + b.drop_last());
        assert((a + b).last() == b.last());
    }
}

pub proof fn lemma_without_absent(a: Seq<u128>, x: u128)
    requires
        !a.contains(x),
    ensures
        without(a, x) == a,
    decreases a.len(),
{
    if a.len() > 0 {
        assert(!a.drop_last().contains(x)) by {
            if a.drop_last().contains(x) {
                let i = choose|i: int| 0 <= i < a.drop_last().len() && a.drop_last()[i] == x;
                assert(a[i] == x);
            }
        }
        lemma_without_absent(a.drop_last(), x);
        assert(a.last() != x) by {
            assert(a[a.len() - 1] == a.last());
        }
        assert(a.drop_last().push(a.last()) =~= a);
    }
}

pub proof fn lemma_without_idempotent(a: Seq<u128>, x: u128)
    ensures
        without(without(a, x), x) == without(a, x),
        !without(a, x).contains(x),
    decreases a.len(),
{
    if a.len() > 0 {
        lemma_without_idempotent(a.drop_last(), x);
        let w = without(a.drop_last(), x);
        let t: Seq<u128> = if a.last() == x { Seq::empty() } else { seq![a.last()] };
        lemma_without_append(w, t, x);
        if a.last() != x {
            assert(without(t, x) =~= t) by {
                assert(t.drop_last() =~= Seq::<u128>::empty());
                assert(without(t.drop_last(), x) =~= Seq::<u128>::empty());
                assert(t.last() == a.last());
                assert(Seq::<u128>::empty() + seq![t.last()] =~= t);
            }
        } else {
            assert(without(t, x) =~= t);
        }
        assert(!(w + t).contains(x)) by {
            if (w + t).contains(x) {
                let i = choose|i: int| 0 <= i < (w + t).len() && (w + t)[i] == x;
                if i < w.len() {
                    assert(w[i] == x);
                } else {
                    assert(t[i - w.len()] == x);
                }
            }
        }
    }
}

pub proof fn lemma_share_only_own(c: ConnectionView, key: IndexKey, x: u128)
    requires
        share(c, key).contains(x),
    ensures
        x == c.connection_id,
{
    let i = choose|i: int| 0 <= i < share(c, key).len() && share(c, key)[i] == x;
}

/// An id in an index list is the id of a registered connection whose share
/// holds it.
pub proof fn lemma_gather_member(s: Seq<ConnectionView>, key: IndexKey, x: u128)
    requires
        gather(s, key).contains(x),
    ensures
        exists|j: int|
            0 <= j < s.len() && #[trigger] s[j].connection_id == x && share(s[j], key).contains(x),
    decreases s.len(),
{
    let p = s.drop_last();
    let g = gather(p, key);
    let t = share(s.last(), key);
    let i = choose|i: int| 0 <= i < (g + t).len() && (g + t)[i] == x;
    if i < g.len() {
        assert(g[i] == x);
        assert(g.contains(x));
        lemma_gather_member(p, key, x);
        let j = choose|j: int| 0 <= j < p.len() && #[trigger] p[j].connection_id == x && share(p[j], key).contains(x);
        assert(s[j] == p[j]);
    } else {
        assert(t[i - g.len()] == x);
        assert(t.contains(x));
        lemma_share_only_own(s.last(), key, x);
        assert(s[s.len() - 1] == s.last());
    }
}

pub proof fn lemma_without_share(c: ConnectionView, key: IndexKey, x: u128)
    ensures
        x == c.connection_id ==> without(share(c, key), x) == Seq::<u128>::empty(),
        x != c.connection_id ==> without(share(c, key), x) == share(c, key),
{
    if x == c.connection_id {
        lemma_without_idempotent(share(c, key), x);
        let w = without(share(c, key), x);
        if w.len() > 0 {
            assert(w.contains(w[0]));
            lemma_without_idempotent(share(c, key), x);
            assert(share(c, key).contains(w[0])) by {
                lemma_without_subset(share(c, key), x, w[0]);
            }
            lemma_share_only_own(c, key, w[0]);
        }
    } else {
        assert(!share(c, key).contains(x)) by {
            if share(c, key).contains(x) {
                lemma_share_only_own(c, key, x);
            }
        }
        lemma_without_absent(share(c, key), x);
    }
}

pub proof fn lemma_without_subset(a: Seq<u128>, x: u128, y: u128)
    requires
        without(a, x).contains(y),
    ensures
        a.contains(y),
    decreases a.len(),
{
    let w = without(a.drop_last(), x);
    let t: Seq<u128> = if a.last() == x { Seq::empty() } else { seq![a.last()] };
    let i = choose|i: int| 0 <= i < (w + t).len() && (w + t)[i] == y;
    if i < w.len() {
        assert(w[i] == y);
        assert(w.contains(y));
        lemma_without_subset(a.drop_last(), x, y);
        let k = choose|k: int| 0 <= k < a.drop_last().len() && a.drop_last()[k] == y;
        assert(a[k] == y);
    } else {
        assert(a[a.len() - 1] == y);
    }
}

/// Dropping a registered connection drops its id from every index list and
/// changes nothing else in them.
pub proof fn lemma_gather_remove(s: Seq<ConnectionView>, p: int, key: IndexKey)
    requires
        ids_distinct(s),
        0 <= p < s.len(),
    ensures
        gather(s.remove(p), key) == without(gather(s, key), s[p].connection_id),
    decreases s.len(),
{
    let x = s[p].connection_id;
    let q = s.drop_last();
    let c = s.last();
    lemma_without_append(gather(q, key), share(c, key), x);
    lemma_without_share(c, key, x);
    if p == s.len() - 1 {
        assert(s.remove(p) =~= q);
        assert(!gather(q, key).contains(x)) by {
            if gather(q, key).contains(x) {
                lemma_gather_member(q, key, x);
                let j = choose|j: int|
                    0 <= j < q.len() && #[trigger] q[j].connection_id == x && share(q[j], key).contains(x);
                assert(s[j].connection_id == s[p].connection_id);
            }
        }
        lemma_without_absent(gather(q, key), x);
    } else {
        assert(ids_distinct(q)) by {
            assert forall|i: int, j: int|
                0 <= i < q.len() && 0 <= j < q.len() && i != j implies #[trigger] q[i].connection_id
                != #[trigger] q[j].connection_id by {
                assert(s[i].connection_id != s[j].connection_id);
            }
        }
        assert(q[p] == s[p]);
        lemma_gather_remove(q, p, key);
        let r = s.remove(p);
        assert(r.drop_last() =~= q.remove(p));
        assert(r.last() == c);
        assert(c.connection_id != x) by {
            assert(s[s.len() - 1] == c);
        }
    }
}

/// Dropping the connection with a given id from a registry with distinct ids.
pub proof fn lemma_drop_connection(s: Seq<ConnectionView>, id: u128)
    requires
        ids_distinct(s),
    ensures
        !has_connection(s, id) ==> drop_connection(s, id) == s,
        forall|p: int| 0 <= p < s.len() && s[p].connection_id == id ==> drop_connection(s, id) == s.remove(p),
    decreases s.len(),
{
    if s.len() > 0 {
        let q = s.drop_last();
        assert(ids_distinct(q)) by {
            assert forall|i: int, j: int|
                0 <= i < q.len() && 0 <= j < q.len() && i != j implies #[trigger] q[i].connection_id
                != #[trigger] q[j].connection_id by {
                assert(s[i].connection_id != s[j].connection_id);
            }
        }
        lemma_drop_connection(q, id);
        if !has_connection(s, id) {
            assert(!has_connection(q, id)) by {
                if has_connection(q, id) {
                    let j = choose|j: int| 0 <= j < q.len() && #[trigger] q[j].connection_id == id;
                    assert(s[j].connection_id == id);
                }
            }
            assert(s.last().connection_id != id) by {
                assert(s[s.len() - 1].connection_id == s.last().connection_id);
            }
            assert(q.push(s.last()) =~= s);
        }
        assert forall|p: int| 0 <= p < s.len() && s[p].connection_id == id implies drop_connection(s, id)
            == s.remove(p) by {
            if p == s.len() - 1 {
                assert(!has_connection(q, id)) by {
                    if has_connection(q, id) {
                        let j = choose|j: int| 0 <= j < q.len() && #[trigger] q[j].connection_id == id;
                        assert(s[j].connection_id == s[p].connection_id);
                    }
                }
                assert(s.remove(p) =~= q);
                assert(drop_connection(s, id) =~= q);
            } else {
                assert(q[p] == s[p]);
                assert(s.last().connection_id != id) by {
                    assert(s[s.len() - 1].connection_id != s[p].connection_id);
                }
                assert(s.remove(p) =~= q.remove(p).push(s.last()));
            }
        }
    }
}


/// A copy of a list of ids.
pub fn copy_ids(ids: &Vec<u128>) -> (r: Vec<u128>)
    ensures
        r@ == ids@,
{
    let mut r: Vec<u128> = Vec::new();
    let n = ids.len();
    let mut i: usize = 0;
    while i < n
        invariant
            n == ids@.len(),
            i <= n,
            r@ == ids@.take(i as int),
        decreases n - i,
    {
        r.push(ids[i]);
        assert(ids@.take(i + 1) =~= ids@.take(i as int).push(ids@[i as int]));
        i = i + 1;
    }
    assert(ids@.take(n as int) =~= ids@);
    r
}

/// A list of ids without any occurrence of `x`, the others in order.
pub fn ids_without(ids: &Vec<u128>, x: u128) -> (r: Vec<u128>)
    ensures
        r@ == without(ids@, x),
{
    let mut r: Vec<u128> = Vec::new();
    let n = ids.len();
    let mut i: usize = 0;
    while i < n
        invariant
            n == ids@.len(),
            i <= n,
            r@ == without(ids@.take(i as int), x),
        decreases n - i,
    {
        assert(ids@.take(i + 1).drop_last() =~= ids@.take(i as int));
        assert(ids@.take(i + 1).last() == ids@[i as int]);
        if ids[i] != x {
            r.push(ids[i]);
            assert(without(ids@.take(i + 1), x) =~= without(ids@.take(i as int), x).push(ids@[i as int]));
        } else {
            assert(without(ids@.take(i + 1), x) =~= without(ids@.take(i as int), x));
        }
        i = i + 1;
    }
    assert(ids@.take(n as int) =~= ids@);
    r
}

/// Appends `id` to the list filed under `key`, filing a new list where there
/// was none.
fn index_append<K: MapKey>(index: &mut KeyedMap<K, Vec<u128>>, key: K, id: u128)
    ensures
        final(index)@ == old(index)@.insert(key, listed(old(index)@, key).push(id)),
{
    let mut ids = match index.remove(&key) {
        Some(v) => v,
        None => Vec::new(),
    };
    ids.push(id);
    index.insert(key, ids);
    proof {
        assert(final(index)@ =~= old(index)@.insert(key, listed(old(index)@, key).push(id)));
    }
}

/// Drops `id` from the list filed under `key`, and the list itself where it
/// becomes empty.
fn index_drop<K: MapKey>(index: &mut KeyedMap<K, Vec<u128>>, key: K, id: u128)
    ensures
        without(listed(old(index)@, key), id).len() == 0 ==> final(index)@ == old(index)@.remove(key),
        without(listed(old(index)@, key), id).len() > 0 ==> final(index)@ == old(index)@.insert(
            key,
            without(listed(old(index)@, key), id),
        ),
{
    match index.remove(&key) {
        Some(ids) => {
            let rest = ids_without(&ids, id);
            if rest.len() > 0 {
                index.insert(key, rest);
                proof {
                    assert(final(index)@ =~= old(index)@.insert(key, without(listed(old(index)@, key), id)));
                }
            }
        },
        None => {
            proof {
                assert(without(listed(old(index)@, key), id) =~= Seq::<u128>::empty());
            }
        },
    }
}

/// A registered websocket connection: who opened it, the units it may see,
/// and the channel that carries messages to its socket task.
pub struct ConnectionContext {
    pub connection_id: u128,
    pub user_id: u128,
    pub organization_id: u128,
    pub unit_ids: Vec<u128>,
    pub sender: tokio::sync::mpsc::Sender<ClientAlertMessage>,
}

impl View for ConnectionContext {
    type V = ConnectionView;

    open spec fn view(&self) -> ConnectionView {
        ConnectionView {
            connection_id: self.connection_id,
            user: UserKey { organization_id: self.organization_id, user_id: self.user_id },
            unit_ids: self.unit_ids@,
            sender: self.sender,
        }
    }
}

pub open spec fn model_of(v: Seq<ConnectionContext>) -> Seq<ConnectionView> {
    v.map_values(|c: ConnectionContext| c@)
}

/// The unit index holds, for every unit, the connections listed for it, and
/// no empty list.
pub open spec fn units_ok(m: Map<u128, Seq<u128>>, s: Seq<ConnectionView>) -> bool {
    &&& forall|u: u128| #[trigger] listed(m, u) == unit_index(s, u)
    &&& forall|u: u128| m.contains_key(u) ==> #[trigger] m[u].len() > 0
}

/// The user index holds, for every user, the connections listed for it, and
/// no empty list.
pub open spec fn users_ok(m: Map<UserKey, Seq<u128>>, s: Seq<ConnectionView>) -> bool {
    &&& forall|k: UserKey| #[trigger] listed(m, k) == user_index(s, k)
    &&& forall|k: UserKey| m.contains_key(k) ==> #[trigger] m[k].len() > 0
}

/// Makes another handle on the channel of a connection.
///
/// Trusted: calls `tokio::sync::mpsc::Sender::clone`, which only clones the
/// shared handle on the same channel; the handle is taken as equal to the
/// one it was cloned from.
#[verifier::external_body]
fn clone_sender(sender: &tokio::sync::mpsc::Sender<ClientAlertMessage>) -> (r: tokio::sync::mpsc::Sender<ClientAlertMessage>)
    ensures
        r == *sender,
{
    sender.clone()
}

/// Registers a connection whose id is new, in the three parts of a registry.
fn attach(
    connections: &mut Vec<ConnectionContext>,
    by_unit: &mut KeyedMap<u128, Vec<u128>>,
    by_user: &mut KeyedMap<UserKey, Vec<u128>>,
    context: ConnectionContext,
)
    requires
        ids_distinct(model_of(old(connections)@)),
        units_ok(old(by_unit)@, model_of(old(connections)@)),
        users_ok(old(by_user)@, model_of(old(connections)@)),
        !has_connection(model_of(old(connections)@), context.connection_id),
    ensures
        model_of(final(connections)@) == model_of(old(connections)@).push(context@),
        ids_distinct(model_of(final(connections)@)),
        units_ok(final(by_unit)@, model_of(final(connections)@)),
        users_ok(final(by_user)@, model_of(final(connections)@)),
{
    let ghost s = model_of(connections@);
    let ghost c = context@;
    let ghost s2 = s.push(c);
    let id = context.connection_id;
    let n = context.unit_ids.len();
    let mut k: usize = 0;
    while k < n
        invariant
            n == context.unit_ids@.len(),
            k <= n,
            c == context@,
            id == c.connection_id,
            forall|u: u128| #[trigger] listed(by_unit@, u) == unit_index(s, u) + Seq::new(
                occurrences(c.unit_ids.take(k as int), u),
                |_i: int| id,
            ),
            forall|u: u128| by_unit@.contains_key(u) ==> #[trigger] by_unit@[u].len() > 0,
        decreases n - k,
    {
        let unit = context.unit_ids[k];
        let ghost before = by_unit@;
        index_append(by_unit, unit, id);
        proof {
            let t = c.unit_ids.take(k + 1);
            assert(t.drop_last() =~= c.unit_ids.take(k as int));
            assert(t.last() == unit);
            assert forall|u: u128| #[trigger] listed(by_unit@, u) == unit_index(s, u) + Seq::new(
                occurrences(c.unit_ids.take(k + 1), u),
                |_i: int| id,
            ) by {
                let old_n = occurrences(c.unit_ids.take(k as int), u);
                if u == unit {
                    assert(listed(by_unit@, u) == listed(before, u).push(id));
                    assert(Seq::new(old_n + 1, |_i: int| id) =~= Seq::new(old_n, |_i: int| id).push(id));
                    assert(unit_index(s, u) + Seq::new(old_n, |_i: int| id).push(id) =~= (unit_index(s, u)
                        + Seq::new(old_n, |_i: int| id)).push(id));
                } else {
                    assert(listed(by_unit@, u) == listed(before, u));
                }
            }
        }
        k = k + 1;
    }
    proof {
        assert(c.unit_ids.take(n as int) =~= c.unit_ids);
        assert(s2.drop_last() =~= s);
        assert(s2.last() == c);
        assert forall|u: u128| #[trigger] listed(by_unit@, u) == unit_index(s2, u) by {
            assert(unit_index(s2, u) == unit_index(s, u) + share(c, IndexKey::Unit(u)));
        }
    }
    let key = UserKey { organization_id: context.organization_id, user_id: context.user_id };
    let ghost before_users = by_user@;
    index_append(by_user, key, id);
    proof {
        assert forall|k2: UserKey| #[trigger] listed(by_user@, k2) == user_index(s2, k2) by {
            assert(user_index(s2, k2) == user_index(s, k2) + share(c, IndexKey::User(k2)));
            if k2 == key {
                assert(listed(by_user@, k2) == listed(before_users, k2).push(id));
                assert(share(c, IndexKey::User(k2)) == seq![id]);
                assert(user_index(s, k2).push(id) =~= user_index(s, k2) + seq![id]);
            } else {
                assert(listed(by_user@, k2) == listed(before_users, k2));
                assert(share(c, IndexKey::User(k2)) =~= Seq::<u128>::empty());
                assert(user_index(s, k2) + Seq::<u128>::empty() =~= user_index(s, k2));
            }
        }
    }
    connections.push(context);
    proof {
        assert(model_of(connections@) =~= s2);
        assert forall|i: int, j: int|
            0 <= i < s2.len() && 0 <= j < s2.len() && i != j implies #[trigger] s2[i].connection_id
            != #[trigger] s2[j].connection_id by {
            if i < s.len() && j < s.len() {
                assert(s[i].connection_id != s[j].connection_id);
            } else if i == s.len() {
                assert(s[j].connection_id != id);
            } else {
                assert(s[i].connection_id != id);
            }
        }
    }
}

/// Unregisters the connection at place `p`, in the three parts of a registry.
fn detach(
    connections: &mut Vec<ConnectionContext>,
    by_unit: &mut KeyedMap<u128, Vec<u128>>,
    by_user: &mut KeyedMap<UserKey, Vec<u128>>,
    p: usize,
) -> (removed: ConnectionContext)
    requires
        p < old(connections)@.len(),
        ids_distinct(model_of(old(connections)@)),
        units_ok(old(by_unit)@, model_of(old(connections)@)),
        users_ok(old(by_user)@, model_of(old(connections)@)),
    ensures
        model_of(final(connections)@) == model_of(old(connections)@).remove(p as int),
        removed == old(connections)@[p as int],
        ids_distinct(model_of(final(connections)@)),
        units_ok(final(by_unit)@, model_of(final(connections)@)),
        users_ok(final(by_user)@, model_of(final(connections)@)),
{
    let ghost s = model_of(connections@);
    let removed = connections.remove(p);
    let ghost c = removed@;
    let ghost s2 = s.remove(p as int);
    let id = removed.connection_id;
    proof {
        assert(s[p as int] == c);
        assert(model_of(connections@) =~= s2);
    }
    let n = removed.unit_ids.len();
    let mut k: usize = 0;
    while k < n
        invariant
            n == removed.unit_ids@.len(),
            k <= n,
            c == removed@,
            id == c.connection_id,
            forall|u: u128| #[trigger] listed(by_unit@, u) == if c.unit_ids.take(k as int).contains(u) {
                without(unit_index(s, u), id)
            } else {
                unit_index(s, u)
            },
            forall|u: u128| by_unit@.contains_key(u) ==> #[trigger] by_unit@[u].len() > 0,
        decreases n - k,
    {
        let unit = removed.unit_ids[k];
        let ghost before = by_unit@;
        index_drop(by_unit, unit, id);
        proof {
            let t = c.unit_ids.take(k + 1);
            assert(t =~= c.unit_ids.take(k as int).push(unit));
            lemma_without_idempotent(unit_index(s, unit), id);
            assert forall|u: u128| #[trigger] listed(by_unit@, u) == if c.unit_ids.take(k + 1).contains(u) {
                without(unit_index(s, u), id)
            } else {
                unit_index(s, u)
            } by {
                if u == unit {
                    assert(t[k as int] == u);
                    assert(listed(by_unit@, u) =~= without(listed(before, u), id));
                } else {
                    assert(listed(by_unit@, u) == listed(before, u));
                    assert(t.contains(u) == c.unit_ids.take(k as int).contains(u)) by {
                        if t.contains(u) {
                            let i = choose|i: int| 0 <= i < t.len() && t[i] == u;
                            assert(c.unit_ids.take(k as int)[i] == u);
                        }
                        if c.unit_ids.take(k as int).contains(u) {
                            let i = choose|i: int| 0 <= i < k && c.unit_ids.take(k as int)[i] == u;
                            assert(t[i] == u);
                        }
                    }
                }
            }
        }
        k = k + 1;
    }
    proof {
        assert(c.unit_ids.take(n as int) =~= c.unit_ids);
        assert forall|u: u128| #[trigger] listed(by_unit@, u) == unit_index(s2, u) by {
            lemma_gather_remove(s, p as int, IndexKey::Unit(u));
            if !c.unit_ids.contains(u) {
                assert(!unit_index(s, u).contains(id)) by {
                    if unit_index(s, u).contains(id) {
                        lemma_gather_member(s, IndexKey::Unit(u), id);
                        let j = choose|j: int|
                            0 <= j < s.len() && #[trigger] s[j].connection_id == id && share(
                                s[j],
                                IndexKey::Unit(u),
                            ).contains(id);
                        assert(j == p);
                        lemma_occurrences_absent(c.unit_ids, u);
                    }
                }
                lemma_without_absent(unit_index(s, u), id);
            }
        }
    }
    let key = UserKey { organization_id: removed.organization_id, user_id: removed.user_id };
    let ghost before_users = by_user@;
    index_drop(by_user, key, id);
    proof {
        assert forall|k2: UserKey| #[trigger] listed(by_user@, k2) == user_index(s2, k2) by {
            lemma_gather_remove(s, p as int, IndexKey::User(k2));
            if k2 == key {
                assert(listed(by_user@, k2) =~= without(listed(before_users, k2), id));
            } else {
                assert(listed(by_user@, k2) == listed(before_users, k2));
                assert(!user_index(s, k2).contains(id)) by {
                    if user_index(s, k2).contains(id) {
                        lemma_gather_member(s, IndexKey::User(k2), id);
                        let j = choose|j: int|
                            0 <= j < s.len() && #[trigger] s[j].connection_id == id && share(
                                s[j],
                                IndexKey::User(k2),
                            ).contains(id);
                        assert(j == p);
                    }
                }
                lemma_without_absent(user_index(s, k2), id);
            }
        }
        assert forall|i: int, j: int|
            0 <= i < s2.len() && 0 <= j < s2.len() && i != j implies #[trigger] s2[i].connection_id
            != #[trigger] s2[j].connection_id by {
            let i2 = if i < p { i } else { i + 1 };
            let j2 = if j < p { j } else { j + 1 };
            assert(s2[i] == s[i2]);
            assert(s2[j] == s[j2]);
            assert(s[i2].connection_id != s[j2].connection_id);
        }
    }
    removed
}

pub proof fn lemma_drop_connection_leaves_none(s: Seq<ConnectionView>, id: u128)
    ensures
        !has_connection(drop_connection(s, id), id),
    decreases s.len(),
{
    if s.len() > 0 {
        lemma_drop_connection_leaves_none(s.drop_last(), id);
        let d = drop_connection(s.drop_last(), id);
        let t: Seq<ConnectionView> = if s.last().connection_id == id { Seq::empty() } else { seq![s.last()] };
        if has_connection(d + t, id) {
            let j = choose|j: int| 0 <= j < (d + t).len() && #[trigger] (d + t)[j].connection_id == id;
            if j < d.len() {
                assert(d[j].connection_id == id);
            } else {
                assert(t[j - d.len()].connection_id == id);
            }
        }
    }
}

/// The ids of a list of delivery targets.
pub open spec fn target_ids(t: Seq<(u128, tokio::sync::mpsc::Sender<ClientAlertMessage>)>) -> Seq<u128> {
    t.map_values(|x: (u128, tokio::sync::mpsc::Sender<ClientAlertMessage>)| x.0)
}

pub proof fn lemma_occurrences_absent(s: Seq<u128>, x: u128)
    requires
        !s.contains(x),
    ensures
        occurrences(s, x) == 0,
    decreases s.len(),
{
    if s.len() > 0 {
        assert(!s.drop_last().contains(x)) by {
            if s.drop_last().contains(x) {
                let i = choose|i: int| 0 <= i < s.drop_last().len() && s.drop_last()[i] == x;
                assert(s[i] == x);
            }
        }
        lemma_occurrences_absent(s.drop_last(), x);
        assert(s[s.len() - 1] == s.last());
    }
}


/// Where the connection with id `id` stands among `connections`, if it is
/// registered.
fn find_connection(connections: &Vec<ConnectionContext>, id: u128) -> (r: Option<usize>)
    ensures
        match r {
            Some(p) => p < connections@.len() && connections@[p as int].connection_id == id,
            None => !has_connection(model_of(connections@), id),
        },
{
    let n = connections.len();
    let mut i: usize = 0;
    while i < n
        invariant
            n == connections@.len(),
            i <= n,
            forall|j: int| 0 <= j < i ==> connections@[j].connection_id != id,
        decreases n - i,
    {
        if connections[i].connection_id == id {
            return Some(i);
        }
        i = i + 1;
    }
    proof {
        let s = model_of(connections@);
        if has_connection(s, id) {
            let j = choose|j: int| 0 <= j < s.len() && #[trigger] s[j].connection_id == id;
            assert(connections@[j].connection_id == id);
        }
    }
    None
}

/// The open websocket connections, in the order in which they were
/// registered, with an index of the connections of each unit and of each
/// user.
pub struct ConnectionRegistry {
    connections: Vec<ConnectionContext>,
    by_unit: KeyedMap<u128, Vec<u128>>,
    by_user: KeyedMap<UserKey, Vec<u128>>,
}

impl View for ConnectionRegistry {
    type V = Seq<ConnectionView>;

    closed spec fn view(&self) -> Seq<ConnectionView> {
        model_of(self.connections@)
    }
}

impl ConnectionRegistry {
    #[verifier::type_invariant]
    closed spec fn inv(self) -> bool {
        &&& ids_distinct(model_of(self.connections@))
        &&& units_ok(self.by_unit@, model_of(self.connections@))
        &&& users_ok(self.by_user@, model_of(self.connections@))
    }

    /// An empty registry.
    pub fn new() -> (r: Self)
        ensures
            r@ == Seq::<ConnectionView>::empty(),
            ids_distinct(r@),
    {
        let r = ConnectionRegistry { connections: Vec::new(), by_unit: KeyedMap::new(), by_user: KeyedMap::new() };
        proof {
            assert(model_of(r.connections@) =~= Seq::<ConnectionView>::empty());
            assert forall|u: u128| #[trigger] listed(r.by_unit@, u) == unit_index(model_of(r.connections@), u) by {
                assert(listed(r.by_unit@, u) =~= Seq::<u128>::empty());
            }
            assert forall|k: UserKey| #[trigger] listed(r.by_user@, k) == user_index(model_of(r.connections@), k) by {
                assert(listed(r.by_user@, k) =~= Seq::<u128>::empty());
            }
        }
        r
    }

    /// Registers a connection under the id `connection_id`. Where that id is
    /// already taken, the connection that holds it is dropped first.
    pub fn register(
        &mut self,
        connection_id: u128,
        user_id: u128,
        organization_id: u128,
        unit_ids: Vec<u128>,
        sender: tokio::sync::mpsc::Sender<ClientAlertMessage>,
    )
        ensures
            final(self)@ == drop_connection(old(self)@, connection_id).push(
                ConnectionView {
                    connection_id,
                    user: UserKey { organization_id, user_id },
                    unit_ids: unit_ids@,
                    sender,
                },
            ),
            ids_distinct(final(self)@),
    {
        proof {
            use_type_invariant(&*self);
        }
        let _ = self.remove_connection(&connection_id);
        proof {
            use_type_invariant(&*self);
            lemma_drop_connection_leaves_none(old(self)@, connection_id);
        }
        let mut registry = ConnectionRegistry::new();
        std::mem::swap(&mut registry, self);
        let ConnectionRegistry { mut connections, mut by_unit, mut by_user } = registry;
        let context = ConnectionContext { connection_id, user_id, organization_id, unit_ids, sender };
        attach(&mut connections, &mut by_unit, &mut by_user, context);
        *self = ConnectionRegistry { connections, by_unit, by_user };
        proof {
            use_type_invariant(&*self);
        }
    }

    /// Registers a new connection under a fresh id, and gives the id: a
    /// random one, or, where that id is taken, the next value (past the
    /// largest, zero) that no connection holds.
    pub fn add_connection(
        &mut self,
        user_id: u128,
        organization_id: u128,
        unit_ids: Vec<u128>,
        sender: tokio::sync::mpsc::Sender<ClientAlertMessage>,
    ) -> (connection_id: u128)
        ensures
            !has_connection(old(self)@, connection_id),
            final(self)@ == old(self)@.push(
                ConnectionView {
                    connection_id,
                    user: UserKey { organization_id, user_id },
                    unit_ids: unit_ids@,
                    sender,
                },
            ),
            ids_distinct(final(self)@),
    {
        proof {
            use_type_invariant(&*self);
        }
        let count = self.connections.len();
        let first = random_uuid();
        let mut candidate = first;
        let ghost mut k: int = 0;
        loop
            invariant
                candidate == id_candidate(first, k),
                0 <= k <= self@.len(),
                self@ == old(self)@,
                self@ == model_of(self.connections@),
                self@.len() == self.connections@.len(),
                self.connections@.len() == count,
                forall|j: int| 0 <= j < k ==> has_connection(self@, #[trigger] id_candidate(first, j)),
            ensures
                !has_connection(self@, candidate),
                self@ == old(self)@,
            decreases self@.len() - k,
        {
            match find_connection(&self.connections, candidate) {
                None => {
                    break;
                },
                Some(p) => {
                    proof {
                        assert(self@[p as int].connection_id == candidate);
                        assert(has_connection(self@, id_candidate(first, k)));
                        assert forall|j: int| 0 <= j < k + 1 implies has_connection(
                            self@,
                            #[trigger] id_candidate(first, j),
                        ) by {
                            if j == k {
                                assert(has_connection(self@, id_candidate(first, k)));
                            }
                        }
                        lemma_taken_candidates_fit(self@, first, k + 1);
                    }
                    candidate = if candidate == u128::MAX {
                        0
                    } else {
                        candidate + 1
                    };
                    proof {
                        k = k + 1;
                    }
                },
            }
        }
        proof {
            lemma_drop_connection(old(self)@, candidate);
        }
        self.register(candidate, user_id, organization_id, unit_ids, sender);
        candidate
    }

    /// Unregisters the connection with id `connection_id` and gives it back,
    /// or gives `None` where no connection has that id.
    pub fn remove_connection(&mut self, connection_id: &u128) -> (removed: Option<ConnectionContext>)
        ensures
            final(self)@ == drop_connection(old(self)@, *connection_id),
            removed is Some <==> has_connection(old(self)@, *connection_id),
            removed matches Some(c) ==> c.connection_id == *connection_id && old(self)@.contains(c@),
            ids_distinct(final(self)@),
    {
        proof {
            use_type_invariant(&*self);
            lemma_drop_connection(self@, *connection_id);
        }
        match find_connection(&self.connections, *connection_id) {
            None => None,
            Some(p) => {
                let mut registry = ConnectionRegistry::new();
                std::mem::swap(&mut registry, self);
                let ConnectionRegistry { mut connections, mut by_unit, mut by_user } = registry;
                proof {
                    assert(model_of(connections@)[p as int].connection_id == *connection_id);
                }
                let removed = detach(&mut connections, &mut by_unit, &mut by_user, p);
                proof {
                    assert(old(self)@[p as int] == removed@);
                    assert(old(self)@.contains(removed@));
                    assert(has_connection(old(self)@, *connection_id)) by {
                        assert(old(self)@[p as int].connection_id == *connection_id);
                    }
                }
                *self = ConnectionRegistry { connections, by_unit, by_user };
                proof {
                    use_type_invariant(&*self);
                }
                Some(removed)
            },
        }
    }

    /// The connections listed for `unit_id`, with a handle on the channel of
    /// each, in the order of the unit's index.
    pub fn senders_for_unit(&self, unit_id: &u128) -> (targets: Vec<(u128, tokio::sync::mpsc::Sender<ClientAlertMessage>)>)
        ensures
            target_ids(targets@) == unit_index(self@, *unit_id),
            forall|i: int| 0 <= i < targets@.len() ==> registered_sender(self@, #[trigger] targets@[i].0, targets@[i].1),
    {
        proof {
            use_type_invariant(self);
            assert(listed(self.by_unit@, *unit_id) == unit_index(self@, *unit_id));
        }
        let mut targets: Vec<(u128, tokio::sync::mpsc::Sender<ClientAlertMessage>)> = Vec::new();
        let ids = match self.by_unit.get(unit_id) {
            Some(ids) => ids,
            None => {
                proof {
                    assert(target_ids(targets@) =~= unit_index(self@, *unit_id));
                }
                return targets;
            },
        };
        let ghost want = unit_index(self@, *unit_id);
        let n = ids.len();
        let mut i: usize = 0;
        while i < n
            invariant
                n == ids@.len(),
                ids@ == want,
                want == unit_index(self@, *unit_id),
                i <= n,
                target_ids(targets@) == want.take(i as int),
                forall|k: int| 0 <= k < targets@.len() ==> registered_sender(self@, #[trigger] targets@[k].0, targets@[k].1),
            decreases n - i,
        {
            let id = ids[i];
            proof {
                assert(want.contains(id)) by {
                    assert(want[i as int] == id);
                }
                lemma_gather_member(self@, IndexKey::Unit(*unit_id), id);
            }
            match find_connection(&self.connections, id) {
                Some(p) => {
                    let sender = clone_sender(&self.connections[p].sender);
                    let ghost before = targets@;
                    targets.push((self.connections[p].connection_id, sender));
                    proof {

                        assert(target_ids(before).len() == before.len());
                        assert(before.len() == i as int);
                        assert forall|k: int| 0 <= k < i implies #[trigger] target_ids(targets@)[k] == want[k] by {
                            assert(targets@[k] == before[k]);
                            assert(target_ids(before)[k] == want.take(i as int)[k]);
                        }
                        assert(target_ids(targets@)[i as int] == id);
                        assert(target_ids(targets@) =~= want.take(i + 1));
                        assert(model_of(self.connections@)[p as int] == self.connections@[p as int]@);
                        assert(self@[p as int].connection_id == id && self@[p as int].sender == sender);
                        assert(registered_sender(self@, targets@[i as int].0, targets@[i as int].1));
                        assert forall|k: int| 0 <= k < targets@.len() implies registered_sender(
                            self@,
                            #[trigger] targets@[k].0,
                            targets@[k].1,
                        ) by {
                            if k < i {
                                assert(targets@[k] == before[k]);
                            }
                        }
                    }
                },
                None => {
                    proof {
                        let j = choose|j: int| 0 <= j < self@.len() && #[trigger] self@[j].connection_id == id
                            && share(self@[j], IndexKey::Unit(*unit_id)).contains(id);
                        assert(has_connection(self@, id));
                    }
                },
            }
            i = i + 1;
        }
        proof {
            assert(want.take(n as int) =~= want);
        }
        targets
    }

    /// The connections of a user, in the order in which they were registered.
    pub fn connections_for_user(&self, organization_id: u128, user_id: u128) -> (ids: Vec<u128>)
        ensures
            ids@ == user_index(self@, UserKey { organization_id, user_id }),
    {
        proof {
            use_type_invariant(self);
        }
        let key = UserKey { organization_id, user_id };
        proof {
            assert(listed(self.by_user@, key) == user_index(self@, key));
        }
        match self.by_user.get(&key) {
            Some(ids) => copy_ids(ids),
            None => Vec::new(),
        }
    }

    /// How many connections are open.
    pub fn connection_count(&self) -> (n: usize)
        ensures
            n == self@.len(),
    {
        self.connections.len()
    }
}


/// A connection is listed for a unit exactly when it is registered and the
/// unit is among its units: an alert for a unit reaches the connections
/// allowed to see it, and no other.
pub proof fn law_unit_index_members(s: Seq<ConnectionView>, unit: u128, id: u128)
    ensures
        unit_index(s, unit).contains(id) <==> exists|j: int|
            0 <= j < s.len() && #[trigger] s[j].connection_id == id && s[j].unit_ids.contains(unit),
    decreases s.len(),
{
    if s.len() > 0 {
        let q = s.drop_last();
        let c = s.last();
        law_unit_index_members(q, unit, id);
        let g = unit_index(q, unit);
        let t = share(c, IndexKey::Unit(unit));
        lemma_occurrences_positive(c.unit_ids, unit);
        if unit_index(s, unit).contains(id) {
            let i = choose|i: int| 0 <= i < (g + t).len() && (g + t)[i] == id;
            if i < g.len() {
                assert(g[i] == id);
                assert(g.contains(id));
                let j = choose|j: int| 0 <= j < q.len() && #[trigger] q[j].connection_id == id && q[j].unit_ids.contains(unit);
                assert(s[j] == q[j]);
            } else {
                assert(t[i - g.len()] == id);
                assert(s[s.len() - 1] == c);
            }
        }
        if exists|j: int| 0 <= j < s.len() && #[trigger] s[j].connection_id == id && s[j].unit_ids.contains(unit) {
            let j = choose|j: int| 0 <= j < s.len() && #[trigger] s[j].connection_id == id && s[j].unit_ids.contains(unit);
            if j < q.len() {
                assert(q[j] == s[j]);
                let i = choose|i: int| 0 <= i < g.len() && g[i] == id;
                assert((g + t)[i] == id);
            } else {
                assert(s[j] == c);
                assert(t[0] == id);
                assert((g + t)[g.len() as int] == id);
            }
        }
    }
}

pub proof fn lemma_occurrences_positive(s: Seq<u128>, x: u128)
    ensures
        occurrences(s, x) > 0 <==> s.contains(x),
    decreases s.len(),
{
    if s.len() > 0 {
        lemma_occurrences_positive(s.drop_last(), x);
        if s.contains(x) && s.last() != x {
            let i = choose|i: int| 0 <= i < s.len() && s[i] == x;
            assert(i != s.len() - 1);
            assert(s.drop_last()[i] == x);
        }
        if s.drop_last().contains(x) {
            let i = choose|i: int| 0 <= i < s.drop_last().len() && s.drop_last()[i] == x;
            assert(s[i] == x);
        }
        if s.last() == x {
            assert(s[s.len() - 1] == x);
        }
    }
}

/// A connection is listed for a user exactly when it is registered by that
/// user.
pub proof fn law_user_index_members(s: Seq<ConnectionView>, user: UserKey, id: u128)
    ensures
        user_index(s, user).contains(id) <==> exists|j: int|
            0 <= j < s.len() && #[trigger] s[j].connection_id == id && s[j].user == user,
    decreases s.len(),
{
    if s.len() > 0 {
        let q = s.drop_last();
        let c = s.last();
        law_user_index_members(q, user, id);
        let g = user_index(q, user);
        let t = share(c, IndexKey::User(user));
        if user_index(s, user).contains(id) {
            let i = choose|i: int| 0 <= i < (g + t).len() && (g + t)[i] == id;
            if i < g.len() {
                assert(g[i] == id);
                assert(g.contains(id));
                let j = choose|j: int| 0 <= j < q.len() && #[trigger] q[j].connection_id == id && q[j].user == user;
                assert(s[j] == q[j]);
            } else {
                assert(t[i - g.len()] == id);
                assert(s[s.len() - 1] == c);
            }
        }
        if exists|j: int| 0 <= j < s.len() && #[trigger] s[j].connection_id == id && s[j].user == user {
            let j = choose|j: int| 0 <= j < s.len() && #[trigger] s[j].connection_id == id && s[j].user == user;
            if j < q.len() {
                assert(q[j] == s[j]);
                let i = choose|i: int| 0 <= i < g.len() && g[i] == id;
                assert((g + t)[i] == id);
            } else {
                assert(s[j] == c);
                assert((g + t)[g.len() as int] == id);
            }
        }
    }
}

/// Unregistering a connection just registered under a new id gives back the
/// registry as it was.
pub proof fn law_register_then_remove(s: Seq<ConnectionView>, c: ConnectionView)
    requires
        ids_distinct(s),
        !has_connection(s, c.connection_id),
    ensures
        drop_connection(drop_connection(s, c.connection_id).push(c), c.connection_id) == s,
{
    lemma_drop_connection(s, c.connection_id);
    let t = s.push(c);
    assert(ids_distinct(t)) by {
        assert forall|i: int, j: int|
            0 <= i < t.len() && 0 <= j < t.len() && i != j implies #[trigger] t[i].connection_id
            != #[trigger] t[j].connection_id by {
            if i < s.len() && j < s.len() {
                assert(s[i].connection_id != s[j].connection_id);
            } else if i == s.len() {
                assert(t[j] == s[j]);
            } else {
                assert(t[i] == s[i]);
            }
        }
    }
    lemma_drop_connection(t, c.connection_id);
    assert(t[s.len() as int].connection_id == c.connection_id);
    assert(t.remove(s.len() as int) =~= s);
}

} // verus!
