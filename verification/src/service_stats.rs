//! Statistics over the context actions of a range of blocks: how many actions of each
//! kind were performed (and, for actions on a key, of each type of key), and the fat
//! tail of the slowest actions.
//!
//! The time totals of the statistics are floating-point sums; they are kept beside
//! these counts by the caller, under the names and types that recording an action
//! returns.

use crate::channel::ContextAction;
use crate::str_map::StrMap;
use crate::top_n::{rank_le, TopN};
use vstd::prelude::*;

verus! {

/// Counts of the actions on one type of key.
pub struct ActionTypeStats {
    pub total_actions: u32,
}

/// Counts of the actions of one kind, in all and per type of key.
pub struct ActionStats {
    pub total_actions: u32,
    pub action_type_stats: StrMap<ActionTypeStats>,
}

/// What an [`ActionStats`] counts: all actions, and the actions on each type of key.
pub ghost struct ActionStatsModel {
    pub total: nat,
    pub types: Map<Seq<char>, nat>,
}

impl ActionStats {
    pub open spec fn model(&self) -> ActionStatsModel {
        ActionStatsModel {
            total: self.total_actions as nat,
            types: self.action_type_stats@.map_values(|t: ActionTypeStats| t.total_actions as nat),
        }
    }

    /// Each type of key is listed once, no type counts more actions than the kind, and
    /// all types together count no more actions than the kind (an action counts under at
    /// most one type).
    pub open spec fn wf(&self) -> bool {
        &&& self.action_type_stats.wf()
        &&& type_count_sum(self.action_type_stats.values()) <= self.total_actions
        &&& forall|t: Seq<char>| #[trigger]
            self.action_type_stats@.contains_key(t)
                ==> self.action_type_stats@[t].total_actions <= self.total_actions
    }
}

/// How many of the slowest actions the statistics keep.
pub const FAT_TAIL_LEN: usize = 100;

/// The actions counted over a list of types of key, all together.
pub open spec fn type_count_sum(s: Seq<ActionTypeStats>) -> nat
    decreases s.len(),
{
    if s.len() == 0 {
        0
    } else {
        type_count_sum(s.drop_last()) + s.last().total_actions as nat
    }
}

proof fn lemma_type_count_sum_remove(s: Seq<ActionTypeStats>, i: int)
    requires
        0 <= i < s.len(),
    ensures
        type_count_sum(s) == type_count_sum(s.remove(i)) + s[i].total_actions,
    decreases s.len(),
{
    if i == s.len() - 1 {
        assert(s.remove(i) =~= s.drop_last());
    } else {
        assert(s.remove(i).drop_last() =~= s.drop_last().remove(i));
        lemma_type_count_sum_remove(s.drop_last(), i);
    }
}

proof fn lemma_type_count_sum_push(s: Seq<ActionTypeStats>, x: ActionTypeStats)
    ensures
        type_count_sum(s.push(x)) == type_count_sum(s) + x.total_actions,
{
    assert(s.push(x).drop_last() =~= s);
}

/// The counts per kind of action.
pub struct StorageStats {
    stats: StrMap<ActionStats>,
}

/// The names under which an action was counted.
pub struct StatKeys {
    pub action_name: String,
    pub action_type: Option<String>,
}

/// The model of a kind not yet counted.
pub open spec fn empty_model() -> ActionStatsModel {
    ActionStatsModel { total: 0, types: Map::empty() }
}

/// The type of key an action counts under: the first segment of its key, except that
/// under "data" it is the second segment (or "data" itself when there is none). An
/// action without a key, or with an empty one, has no type.
pub open spec fn action_type_of(key: Option<Seq<Seq<char>>>) -> Option<Seq<char>> {
    match key {
        None => None,
        Some(k) => if k.len() == 0 {
            None
        } else if k[0] == "data"@ && k.len() > 1 {
            Some(k[1])
        } else {
            Some(k[0])
        },
    }
}

/// The key of an action as plain strings.
pub open spec fn key_view(key: Option<&Vec<String>>) -> Option<Seq<Seq<char>>> {
    match key {
        Some(k) => Some(k.deep_view()),
        None => None,
    }
}

/// The counts after one more action of kind `name` on a key of type `action_type`.
pub open spec fn count_action(
    stats: Map<Seq<char>, ActionStatsModel>,
    name: Seq<char>,
    action_type: Option<Seq<char>>,
) -> Map<Seq<char>, ActionStatsModel> {
    let prev = if stats.contains_key(name) { stats[name] } else { empty_model() };
    let types = match action_type {
        Some(t) => prev.types.insert(
            t,
            if prev.types.contains_key(t) { prev.types[t] + 1 } else { 1 },
        ),
        None => prev.types,
    };
    stats.insert(name, ActionStatsModel { total: prev.total + 1, types })
}

/// One more action of kind `name` still fits the 32-bit counters.
pub open spec fn can_count(stats: Map<Seq<char>, ActionStatsModel>, name: Seq<char>) -> bool {
    !stats.contains_key(name) || stats[name].total < u32::MAX
}

/// The kind an action is counted under, if it is counted at all.
pub open spec fn action_name_of(a: ContextAction) -> Option<Seq<char>> {
    match a {
        ContextAction::SetValue { .. } => Some("SET"@),
        ContextAction::Delete { .. } => Some("DEL"@),
        ContextAction::RemoveRecursively { .. } => Some("REMREC"@),
        ContextAction::Copy { .. } => Some("COPY"@),
        ContextAction::Checkout { .. } => Some("CHECKOUT"@),
        ContextAction::Commit { .. } => Some("COMMIT"@),
        ContextAction::Mem { .. } => Some("MEM"@),
        ContextAction::DirMem { .. } => Some("DIRMEM"@),
        ContextAction::Get { .. } => Some("GET"@),
        ContextAction::Fold { .. } => Some("FOLD"@),
        ContextAction::Shutdown => None,
    }
}

/// The key an action is counted by, if it has one.
pub open spec fn action_key_of(a: ContextAction) -> Option<Seq<Seq<char>>> {
    match a {
        ContextAction::SetValue { key, .. } => Some(key.deep_view()),
        ContextAction::Delete { key, .. } => Some(key.deep_view()),
        ContextAction::RemoveRecursively { key, .. } => Some(key.deep_view()),
        ContextAction::Mem { key, .. } => Some(key.deep_view()),
        ContextAction::DirMem { key, .. } => Some(key.deep_view()),
        ContextAction::Get { key, .. } => Some(key.deep_view()),
        ContextAction::Fold { key, .. } => Some(key.deep_view()),
        _ => None,
    }
}

/// The counts after recording `a`.
pub open spec fn record_step(stats: Map<Seq<char>, ActionStatsModel>, a: ContextAction) -> Map<
    Seq<char>,
    ActionStatsModel,
> {
    match action_name_of(a) {
        Some(name) => count_action(stats, name, action_type_of(action_key_of(a))),
        None => stats,
    }
}

/// Recording `a` keeps the counters within 32 bits.
pub open spec fn can_record_step(stats: Map<Seq<char>, ActionStatsModel>, a: ContextAction) -> bool {
    match action_name_of(a) {
        Some(name) => can_count(stats, name),
        None => true,
    }
}

impl StorageStats {
    /// The counts per kind.
    pub closed spec fn model(&self) -> Map<Seq<char>, ActionStatsModel> {
        self.stats@.map_values(|a: ActionStats| a.model())
    }

    /// Each kind is listed once, and each kind's counts are consistent.
    pub closed spec fn wf(&self) -> bool {
        &&& self.stats.wf()
        &&& forall|n: Seq<char>| #[trigger] self.stats@.contains_key(n) ==> self.stats@[n].wf()
    }

    /// No action counted yet.
    pub fn new() -> (s: StorageStats)
        ensures
            s.wf(),
            s.model() == Map::<Seq<char>, ActionStatsModel>::empty(),
    {
        let s = StorageStats { stats: StrMap::new() };
        assert(s.model() =~= Map::<Seq<char>, ActionStatsModel>::empty());
        s
    }

    /// The stored counts, one entry per kind, for reading them out.
    pub fn action_stats(&self) -> (m: &StrMap<ActionStats>)
        requires
            self.wf(),
        ensures
            m.wf(),
            m@.map_values(|a: ActionStats| a.model()) == self.model(),
            forall|n: Seq<char>| #[trigger] m@.contains_key(n) ==> m@[n].wf(),
    {
        &self.stats
    }

    /// Whether recording `action` keeps the counters within 32 bits.
    pub fn can_record(&self, action: &ContextAction) -> (r: bool)
        requires
            self.wf(),
        ensures
            r == can_record_step(self.model(), *action),
    {
        let name = match action_name(action) {
            Some(n) => n,
            None => return true,
        };
        match self.stats.get(&name) {
            Some(a) => a.total_actions < u32::MAX,
            None => true,
        }
    }
}

/// The type of key an action on `key` counts under.
fn action_type_from_key(key: Option<&Vec<String>>) -> (r: Option<String>)
    ensures
        r matches Some(t) ==> action_type_of(key_view(key)) == Some(t@),
        r is None <==> action_type_of(key_view(key)) is None,
{
    match key {
        Some(k) => {
            if k.len() == 0 {
                None
            } else {
                let data = "data".to_owned();
                if k[0] == data && k.len() > 1 {
                    Some(k[1].clone())
                } else {
                    Some(k[0].clone())
                }
            }
        },
        None => None,
    }
}

/// The kind `action` is counted under.
fn action_name(action: &ContextAction) -> (r: Option<String>)
    ensures
        r matches Some(n) ==> action_name_of(*action) == Some(n@),
        r is None <==> action_name_of(*action) is None,
{
    match action {
        ContextAction::SetValue { .. } => Some("SET".to_owned()),
        ContextAction::Delete { .. } => Some("DEL".to_owned()),
        ContextAction::RemoveRecursively { .. } => Some("REMREC".to_owned()),
        ContextAction::Copy { .. } => Some("COPY".to_owned()),
        ContextAction::Checkout { .. } => Some("CHECKOUT".to_owned()),
        ContextAction::Commit { .. } => Some("COMMIT".to_owned()),
        ContextAction::Mem { .. } => Some("MEM".to_owned()),
        ContextAction::DirMem { .. } => Some("DIRMEM".to_owned()),
        ContextAction::Get { .. } => Some("GET".to_owned()),
        ContextAction::Fold { .. } => Some("FOLD".to_owned()),
        ContextAction::Shutdown => None,
    }
}

/// Counts one more action of kind `action_name`, and, when it acts on a key, one more
/// action on that key's type. Returns the names it was counted under.
pub fn add_action(stats: &mut StorageStats, action_name: &str, key: Option<&Vec<String>>) -> (keys:
    StatKeys)
    requires
        old(stats).wf(),
        can_count(old(stats).model(), action_name@),
    ensures
        final(stats).wf(),
        final(stats).model() == count_action(
            old(stats).model(),
            action_name@,
            action_type_of(key_view(key)),
        ),
        keys.action_name@ == action_name@,
        keys.action_type matches Some(t) ==> action_type_of(key_view(key)) == Some(t@),
        keys.action_type is None <==> action_type_of(key_view(key)) is None,
        key is Some && key->0.len() >= 2 && key->0[0]@ == "data"@ ==> keys.action_type is Some
            && keys.action_type->0@ == key->0[1]@,
        key is Some && key->0.len() >= 1 && key->0[0]@ != "data"@ ==> keys.action_type is Some
            && keys.action_type->0@ == key->0[0]@,
        key is Some && key->0.len() == 1 ==> keys.action_type is Some && keys.action_type->0@
            == key->0[0]@,
        key is Some && key->0.len() == 0 ==> keys.action_type is None,
        key is None ==> keys.action_type is None,
{
    let ghost old_model = stats.model();
    let name = action_name.to_owned();
    let prev = stats.stats.take(&name);
    let mut entry = match prev {
        Some(e) => e,
        None => ActionStats { total_actions: 0, action_type_stats: StrMap::new() },
    };
    proof {
        if prev is None {
            assert(type_count_sum(entry.action_type_stats.values()) == 0);
        }
    }
    let ghost prev_entry = entry;
    assert(entry.wf());
    assert(entry.model() == (if old_model.contains_key(name@) {
        old_model[name@]
    } else {
        empty_model()
    })) by {
        if !old_model.contains_key(name@) {
            assert(entry.model().types =~= Map::<Seq<char>, nat>::empty());
        }
    }
    entry.total_actions = entry.total_actions + 1;
    let action_type = action_type_from_key(key);
    match &action_type {
        Some(t) => {
            let ghost vals0 = entry.action_type_stats.values();
            let prev_t = entry.action_type_stats.take(t);
            let c = match &prev_t {
                Some(x) => x.total_actions,
                None => 0,
            };
            proof {
                match prev_t {
                    Some(x) => {
                        let i = choose|i: int|
                            0 <= i < vals0.len() && vals0[i] == x
                                && entry.action_type_stats.values() == vals0.remove(i);
                        lemma_type_count_sum_remove(vals0, i);
                    },
                    None => {},
                }
                assert(type_count_sum(entry.action_type_stats.values()) + c == type_count_sum(vals0));
            }
            let ghost vals1 = entry.action_type_stats.values();
            let new_t = ActionTypeStats { total_actions: c + 1 };
            entry.action_type_stats.insert_new(t.clone(), new_t);
            proof {
                lemma_type_count_sum_push(vals1, new_t);
            }
            assert(entry.model().types =~= prev_entry.model().types.insert(
                t@,
                if prev_entry.model().types.contains_key(t@) {
                    prev_entry.model().types[t@] + 1
                } else {
                    1
                },
            ));
        },
        None => {},
    }
    assert(entry.wf());
    stats.stats.insert_new(name.clone(), entry);
    assert(stats.model() =~= count_action(old_model, action_name@, action_type_of(key_view(key))));
    StatKeys { action_name: name, action_type }
}

/// Counts `action` under its kind and type of key; a shutdown event is not counted.
/// Returns the names it was counted under.
pub fn record_action(stats: &mut StorageStats, action: &ContextAction) -> (keys: Option<StatKeys>)
    requires
        old(stats).wf(),
        can_record_step(old(stats).model(), *action),
    ensures
        final(stats).wf(),
        final(stats).model() == record_step(old(stats).model(), *action),
        keys is None <==> action_name_of(*action) is None,
        keys matches Some(k) ==> action_name_of(*action) == Some(k.action_name@) && (
        k.action_type matches Some(t) ==> action_type_of(action_key_of(*action)) == Some(t@))
            && (k.action_type is None <==> action_type_of(action_key_of(*action)) is None),
{
    match action {
        ContextAction::SetValue { key, .. } => Some(add_action(stats, "SET", Some(key))),
        ContextAction::Delete { key, .. } => Some(add_action(stats, "DEL", Some(key))),
        ContextAction::RemoveRecursively { key, .. } => Some(add_action(stats, "REMREC", Some(key))),
        ContextAction::Copy { .. } => Some(add_action(stats, "COPY", None)),
        ContextAction::Checkout { .. } => Some(add_action(stats, "CHECKOUT", None)),
        ContextAction::Commit { .. } => Some(add_action(stats, "COMMIT", None)),
        ContextAction::Mem { key, .. } => Some(add_action(stats, "MEM", Some(key))),
        ContextAction::DirMem { key, .. } => Some(add_action(stats, "DIRMEM", Some(key))),
        ContextAction::Get { key, .. } => Some(add_action(stats, "GET", Some(key))),
        ContextAction::Fold { key, .. } => Some(add_action(stats, "FOLD", Some(key))),
        ContextAction::Shutdown => None,
    }
}

/// `after` is `before` with the value of a set operation dropped: a set operation keeps
/// everything but its value, which becomes empty, and its JSON rendering, which becomes
/// absent; any other action is unchanged.
pub open spec fn value_removed(before: ContextAction, after: ContextAction) -> bool {
    match before {
        ContextAction::SetValue {
            context_hash,
            block_hash,
            operation_hash,
            key,
            start_time,
            end_time,
            tezedge_time,
            ..
        } => after matches ContextAction::SetValue {
            context_hash: c2,
            block_hash: b2,
            operation_hash: o2,
            key: k2,
            value: v2,
            value_as_json: j2,
            start_time: s2,
            end_time: e2,
            tezedge_time: t2,
        } && c2 == context_hash && b2 == block_hash && o2 == operation_hash && k2 == key
            && v2@.len() == 0 && j2 is None && s2 == start_time && e2 == end_time && t2
            == tezedge_time,
        _ => after == before,
    }
}

fn without_value(a: ContextAction) -> (r: ContextAction)
    ensures
        value_removed(a, r),
{
    match a {
        ContextAction::SetValue {
            context_hash,
            block_hash,
            operation_hash,
            key,
            value: _,
            value_as_json: _,
            start_time,
            end_time,
            tezedge_time,
        } => ContextAction::SetValue {
            context_hash,
            block_hash,
            operation_hash,
            key,
            value: Vec::new(),
            value_as_json: None,
            start_time,
            end_time,
            tezedge_time,
        },
        other => other,
    }
}

/// Drops the (possibly large) values of the set operations among `actions`, keeping
/// everything else in place.
pub fn remove_values(actions: Vec<ContextAction>) -> (r: Vec<ContextAction>)
    ensures
        r.len() == actions.len(),
        forall|i: int| 0 <= i < actions.len() ==> value_removed(actions[i], #[trigger] r[i]),
{
    let ghost orig = actions@;
    let mut rest = actions;
    let mut out: Vec<ContextAction> = Vec::new();
    while rest.len() > 0
        invariant
            out.len() + rest.len() == orig.len(),
            rest@ == orig.skip(out.len() as int),
            forall|i: int| 0 <= i < out.len() ==> value_removed(orig[i], #[trigger] out[i]),
        decreases rest.len(),
    {
        let a = rest.remove(0);
        out.push(without_value(a));
        assert(rest@ =~= orig.skip(out.len() as int));
    }
    out
}

/// The identifier under which the fat tail keeps the `action_idx`-th action of the
/// `block_idx`-th block: the block in the high 32 bits, the action in the low ones.
pub fn fat_tail_id(block_idx: u32, action_idx: u32) -> (id: u64)
    ensures
        id == block_idx * 0x1_0000_0000 + action_idx,
{
    (block_idx as u64) * 0x1_0000_0000u64 + (action_idx as u64)
}

/// The block and action that a fat-tail identifier stands for.
pub fn fat_tail_position(id: u64) -> (r: (u32, u32))
    ensures
        r.0 == id / 0x1_0000_0000,
        r.1 == id % 0x1_0000_0000,
        id == r.0 * 0x1_0000_0000 + r.1,
{
    ((id / 0x1_0000_0000u64) as u32, (id % 0x1_0000_0000u64) as u32)
}

/// An identifier gives back the block and action it was made from.
pub proof fn lemma_fat_tail_id_round_trip(block_idx: u32, action_idx: u32)
    ensures
        (block_idx * 0x1_0000_0000 + action_idx) / 0x1_0000_0000 == block_idx,
        (block_idx * 0x1_0000_0000 + action_idx) % 0x1_0000_0000 == action_idx,
{
    let id: int = block_idx * 0x1_0000_0000 + action_idx;
    assert(id / 0x1_0000_0000 == block_idx && id % 0x1_0000_0000 == action_idx) by (nonlinear_arith)
        requires
            id == block_idx * 0x1_0000_0000 + action_idx,
            0 <= action_idx < 0x1_0000_0000,
            0 <= block_idx,
    ;
}

/// The fat tail's items, greatest first.
pub fn fat_tail_vec(fat_tail: TopN) -> (v: Vec<(u64, u64)>)
    ensures
        v@.to_multiset() == fat_tail@,
        forall|i: int, j: int| 0 <= i < j < v.len() ==> rank_le(#[trigger] v[j], #[trigger] v[i]),
{
    fat_tail.into_descending_vec()
}

/// Counting two actions gives the same counts in either order, whatever their kinds and
/// types of key.
pub proof fn lemma_count_commutes(
    stats: Map<Seq<char>, ActionStatsModel>,
    n1: Seq<char>,
    t1: Option<Seq<char>>,
    n2: Seq<char>,
    t2: Option<Seq<char>>,
)
    ensures
        count_action(count_action(stats, n1, t1), n2, t2) == count_action(
            count_action(stats, n2, t2),
            n1,
            t1,
        ),
{
    let ab = count_action(count_action(stats, n1, t1), n2, t2);
    let ba = count_action(count_action(stats, n2, t2), n1, t1);
    if n1 == n2 {
        assert(ab[n1].types =~= ba[n1].types);
    }
    assert(ab =~= ba);
}

/// Recording two actions gives the same counts in either order.
pub proof fn lemma_record_commutes(
    stats: Map<Seq<char>, ActionStatsModel>,
    a: ContextAction,
    b: ContextAction,
)
    ensures
        record_step(record_step(stats, a), b) == record_step(record_step(stats, b), a),
{
    match (action_name_of(a), action_name_of(b)) {
        (Some(na), Some(nb)) => {
            lemma_count_commutes(
                stats,
                na,
                action_type_of(action_key_of(a)),
                nb,
                action_type_of(action_key_of(b)),
            );
        },
        _ => {},
    }
}

/// The counts after recording the actions of `s` in turn.
pub open spec fn record_all(stats: Map<Seq<char>, ActionStatsModel>, s: Seq<ContextAction>) -> Map<
    Seq<char>,
    ActionStatsModel,
>
    decreases s.len(),
{
    if s.len() == 0 {
        stats
    } else {
        record_step(record_all(stats, s.drop_last()), s.last())
    }
}

/// Recording the actions of `s` in turn keeps every counter within 32 bits.
pub open spec fn can_record_all(stats: Map<Seq<char>, ActionStatsModel>, s: Seq<ContextAction>) -> bool
    decreases s.len(),
{
    s.len() == 0 || (can_record_all(stats, s.drop_last()) && can_record_step(
        record_all(stats, s.drop_last()),
        s.last(),
    ))
}

/// How many actions of `s` are counted under kind `n`.
pub open spec fn named_count(s: Seq<ContextAction>, n: Seq<char>) -> nat
    decreases s.len(),
{
    if s.len() == 0 {
        0
    } else {
        named_count(s.drop_last(), n) + if action_name_of(s.last()) == Some(n) {
            1nat
        } else {
            0nat
        }
    }
}

/// How many actions of kind `n` the counts hold.
pub open spec fn total_of(stats: Map<Seq<char>, ActionStatsModel>, n: Seq<char>) -> nat {
    if stats.contains_key(n) {
        stats[n].total
    } else {
        0
    }
}

proof fn lemma_record_all_push(
    stats: Map<Seq<char>, ActionStatsModel>,
    s: Seq<ContextAction>,
    a: ContextAction,
)
    ensures
        record_all(stats, s.push(a)) == record_step(record_all(stats, s), a),
        can_record_all(stats, s.push(a)) == (can_record_all(stats, s) && can_record_step(
            record_all(stats, s),
            a,
        )),
{
    assert(s.push(a).drop_last() =~= s);
}

proof fn lemma_can_record_prefix(stats: Map<Seq<char>, ActionStatsModel>, s: Seq<ContextAction>, k: int)
    requires
        can_record_all(stats, s),
        0 <= k <= s.len(),
    ensures
        can_record_all(stats, s.take(k)),
    decreases s.len(),
{
    if k == s.len() {
        assert(s.take(k) =~= s);
    } else {
        assert(s.drop_last().take(k) =~= s.take(k));
        lemma_can_record_prefix(stats, s.drop_last(), k);
    }
}

/// Each action of kind `n` adds one to the count of `n`, and nothing else does.
pub proof fn lemma_total_after(stats: Map<Seq<char>, ActionStatsModel>, s: Seq<ContextAction>, n: Seq<char>)
    ensures
        total_of(record_all(stats, s), n) == total_of(stats, n) + named_count(s, n),
    decreases s.len(),
{
    if s.len() > 0 {
        lemma_total_after(stats, s.drop_last(), n);
    }
}

proof fn lemma_move_to_end(stats: Map<Seq<char>, ActionStatsModel>, s: Seq<ContextAction>, k: int)
    requires
        0 <= k < s.len(),
    ensures
        record_all(stats, s.remove(k).push(s[k])) == record_all(stats, s),
    decreases s.len(),
{
    let q = s.remove(k).push(s[k]);
    if k == s.len() - 1 {
        assert(q =~= s);
    } else {
        let p = s.drop_last();
        let y = s.last();
        assert(s =~= p.push(y));
        assert(s.remove(k) =~= p.remove(k).push(y));
        assert(p[k] == s[k]);
        lemma_record_all_push(stats, p.remove(k).push(y), s[k]);
        lemma_record_all_push(stats, p.remove(k), y);
        lemma_record_commutes(record_all(stats, p.remove(k)), y, s[k]);
        lemma_record_all_push(stats, p.remove(k), s[k]);
        lemma_move_to_end(stats, p, k);
        lemma_record_all_push(stats, p, y);
    }
}

/// The counts of a run depend only on which actions it records, not on their order:
/// two runs that record the same actions (as a multiset) end with the same counts.
pub proof fn lemma_record_all_order_independent(
    stats: Map<Seq<char>, ActionStatsModel>,
    s1: Seq<ContextAction>,
    s2: Seq<ContextAction>,
)
    requires
        s1.to_multiset() == s2.to_multiset(),
    ensures
        record_all(stats, s1) == record_all(stats, s2),
    decreases s1.len(),
{
    broadcast use vstd::seq_lib::group_to_multiset_ensures;

    if s1.len() == 0 {
        assert(s1.to_multiset().len() == s1.len());
        assert(s2.to_multiset().len() == s2.len());
        assert(s2.len() == 0);
    } else {
        let x = s1.last();
        assert(s1.to_multiset().count(x) > 0) by {
            assert(s1.contains(x)) by {
                assert(s1[s1.len() - 1] == x);
            }
        }
        assert(s2.contains(x));
        let k = s2.index_of(x);
        let s2r = s2.remove(k);
        assert(s1.drop_last() =~= s1.remove(s1.len() - 1));
        assert(s1.drop_last().to_multiset() == s2r.to_multiset());
        lemma_record_all_order_independent(stats, s1.drop_last(), s2r);
        lemma_record_all_push(stats, s2r, x);
        assert(s1 =~= s1.drop_last().push(x));
        lemma_record_all_push(stats, s1.drop_last(), x);
        lemma_move_to_end(stats, s2, k);
    }
}

/// Recording `s1` and then `s2` gives the same counts as recording `s1` followed by `s2`
/// in one sequence: the statistics of a run can be built block by block.
pub proof fn lemma_record_all_concat(
    stats: Map<Seq<char>, ActionStatsModel>,
    s1: Seq<ContextAction>,
    s2: Seq<ContextAction>,
)
    ensures
        record_all(record_all(stats, s1), s2) == record_all(stats, s1 + s2),
    decreases s2.len(),
{
    if s2.len() == 0 {
        assert(s1 + s2 =~= s1);
    } else {
        assert((s1 + s2).drop_last() =~= s1 + s2.drop_last());
        assert((s1 + s2).last() == s2.last());
        lemma_record_all_concat(stats, s1, s2.drop_last());
    }
}

/// Recording two blocks gives the same counts whichever block is recorded first, so the
/// statistics do not depend on the order in which parallel workers record their blocks.
pub proof fn lemma_record_blocks_commute(
    stats: Map<Seq<char>, ActionStatsModel>,
    b1: Seq<ContextAction>,
    b2: Seq<ContextAction>,
)
    ensures
        record_all(record_all(stats, b1), b2) == record_all(record_all(stats, b2), b1),
{
    broadcast use vstd::seq_lib::lemma_multiset_commutative;

    lemma_record_all_concat(stats, b1, b2);
    lemma_record_all_concat(stats, b2, b1);
    assert((b1 + b2).to_multiset() =~= (b2 + b1).to_multiset());
    lemma_record_all_order_independent(stats, b1 + b2, b2 + b1);
}

/// The type of key an action is counted under, in terms of the key's segments: under
/// "data" it is the second segment whenever there is one, whatever the key's length;
/// otherwise it is the first segment; a missing or empty key gives no type.
pub proof fn lemma_action_type_rule(k: Seq<Seq<char>>)
    ensures
        k.len() >= 2 && k[0] == "data"@ ==> action_type_of(Some(k)) == Some(k[1]),
        k.len() >= 1 && k[0] != "data"@ ==> action_type_of(Some(k)) == Some(k[0]),
        k.len() == 1 ==> action_type_of(Some(k)) == Some(k[0]),
        k.len() == 0 ==> action_type_of(Some(k)) is None,
        action_type_of(None) is None,
{
}

/// Recording an action under "data" with at least two key segments counts one more
/// action on the second segment, whatever the other segments are.
pub proof fn lemma_data_key_counts_second_segment(
    stats: Map<Seq<char>, ActionStatsModel>,
    name: Seq<char>,
    k: Seq<Seq<char>>,
)
    requires
        k.len() >= 2,
        k[0] == "data"@,
    ensures
        ({
            let prev = if stats.contains_key(name) { stats[name] } else { empty_model() };
            let after = count_action(stats, name, action_type_of(Some(k)))[name];
            &&& after.total == prev.total + 1
            &&& after.types.contains_key(k[1])
            &&& after.types[k[1]] == (if prev.types.contains_key(k[1]) {
                prev.types[k[1]]
            } else {
                0
            }) + 1
            &&& forall|t: Seq<char>| t != k[1] ==> after.types.contains_key(t)
                == prev.types.contains_key(t) && (prev.types.contains_key(t) ==> after.types[t]
                == prev.types[t])
        }),
{
}

/// Dropping a set operation's value keeps every other field of the action: its hashes,
/// key and times; only the value becomes empty and the JSON text absent. Any other
/// action is kept as it is.
pub proof fn lemma_value_removed_keeps_fields(before: ContextAction, after: ContextAction)
    requires
        value_removed(before, after),
    ensures
        before matches ContextAction::SetValue {
            context_hash,
            block_hash,
            operation_hash,
            key,
            start_time,
            end_time,
            tezedge_time,
            ..
        } ==> (after matches ContextAction::SetValue {
            context_hash: c2,
            block_hash: b2,
            operation_hash: o2,
            key: k2,
            value: v2,
            value_as_json: j2,
            start_time: s2,
            end_time: e2,
            tezedge_time: t2,
        } && c2 == context_hash && b2 == block_hash && o2 == operation_hash && k2 == key
            && v2@ == Seq::<u8>::empty() && j2 is None && s2 == start_time && e2 == end_time
            && t2 == tezedge_time),
        !(before is SetValue) ==> after == before,
{
    if before is SetValue {
        if let ContextAction::SetValue { value: v2, .. } = after {
            assert(v2@ =~= Seq::<u8>::empty());
        }
    }
}

/// Whether recording `actions` in turn keeps every counter within 32 bits.
pub fn can_record_actions(stats: &StorageStats, actions: &Vec<ContextAction>) -> (r: bool)
    requires
        stats.wf(),
    ensures
        r == can_record_all(stats.model(), actions@),
{
    let ghost m = stats.model();
    let ghost s = actions@;
    let mut i: usize = 0;
    while i < actions.len()
        invariant
            stats.wf(),
            m == stats.model(),
            s == actions@,
            i <= s.len(),
            can_record_all(m, s.take(i as int)),
        decreases s.len() - i,
    {
        proof {
            assert(s.take(i + 1) =~= s.take(i as int).push(s[i as int]));
            lemma_record_all_push(m, s.take(i as int), s[i as int]);
        }
        match action_name(&actions[i]) {
            None => {},
            Some(name) => {
                let base: u64 = match stats.stats.get(&name) {
                    Some(a) => a.total_actions as u64,
                    None => 0,
                };
                let mut c: u64 = 0;
                let mut j: usize = 0;
                while j < i
                    invariant
                        j <= i < s.len(),
                        s == actions@,
                        c <= j,
                        c == named_count(s.take(j as int), name@),
                    decreases i - j,
                {
                    proof {
                        assert(s.take(j + 1) =~= s.take(j as int).push(s[j as int]));
                        assert(s.take(j + 1).drop_last() =~= s.take(j as int));
                    }
                    match action_name(&actions[j]) {
                        Some(n2) => {
                            if n2 == name {
                                c = c + 1;
                            }
                        },
                        None => {},
                    }
                    j = j + 1;
                }
                proof {
                    lemma_total_after(m, s.take(i as int), name@);
                }
                if c >= (u32::MAX as u64) - base {
                    proof {
                        if can_record_all(m, s) {
                            lemma_can_record_prefix(m, s, i + 1);
                        }
                    }
                    return false;
                }
            },
        }
        i = i + 1;
    }
    proof {
        assert(s.take(s.len() as int) =~= s);
    }
    true
}

/// Records the actions of `actions` in turn, and returns the names each one was counted
/// under (none for a shutdown event).
pub fn record_actions(stats: &mut StorageStats, actions: &Vec<ContextAction>) -> (keys: Vec<
    Option<StatKeys>,
>)
    requires
        old(stats).wf(),
        can_record_all(old(stats).model(), actions@),
    ensures
        final(stats).wf(),
        final(stats).model() == record_all(old(stats).model(), actions@),
        keys.len() == actions.len(),
        forall|i: int|
            0 <= i < actions.len() ==> (#[trigger] keys[i] is None <==> action_name_of(
                actions[i],
            ) is None),
        forall|i: int|
            0 <= i < actions.len() ==> (#[trigger] keys[i] matches Some(k) ==> action_name_of(
                actions[i],
            ) == Some(k.action_name@) && (k.action_type matches Some(t) ==> action_type_of(
                action_key_of(actions[i]),
            ) == Some(t@)) && (k.action_type is None <==> action_type_of(
                action_key_of(actions[i]),
            ) is None)),
{
    let ghost m = stats.model();
    let ghost s = actions@;
    let mut keys: Vec<Option<StatKeys>> = Vec::new();
    let mut i: usize = 0;
    while i < actions.len()
        invariant
            stats.wf(),
            s == actions@,
            can_record_all(m, s),
            i <= s.len(),
            keys.len() == i,
            stats.model() == record_all(m, s.take(i as int)),
            forall|k: int|
                0 <= k < i ==> (#[trigger] keys[k] is None <==> action_name_of(s[k]) is None),
            forall|k: int|
                0 <= k < i ==> (#[trigger] keys[k] matches Some(kk) ==> action_name_of(s[k])
                    == Some(kk.action_name@) && (kk.action_type matches Some(t) ==> action_type_of(
                    action_key_of(s[k]),
                ) == Some(t@)) && (kk.action_type is None <==> action_type_of(
                    action_key_of(s[k]),
                ) is None)),
        decreases s.len() - i,
    {
        proof {
            lemma_can_record_prefix(m, s, i + 1);
            assert(s.take(i + 1) =~= s.take(i as int).push(s[i as int]));
            lemma_record_all_push(m, s.take(i as int), s[i as int]);
        }
        let k = record_action(stats, &actions[i]);
        keys.push(k);
        i = i + 1;
    }
    proof {
        assert(s.take(s.len() as int) =~= s);
    }
    keys
}

} // verus!
